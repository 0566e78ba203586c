//! Which names and kinds of recovery documents there are, and where they stand.

use crate::dialogue::{Reply, Slot, StopView};
use crate::failure::Failure;
use crate::identifier::{
    is_canonical_uuid, is_component, is_hex_char, law_canonical_uuid_is_a_shape,
};
use crate::private_dir::{BasePath, DirView};
use crate::recovery_files::{
    candidate_written, cuts_between_characters, epoch_dir, invalid_limit, manifest_kind, manifest_names, manifest_read,
    manifest_removed, manifest_root, message_read, message_removed, message_written,
    number_failure, spool_file, spool_kind, stem_parts, suffix_failure, ManifestNames,
    RecoveryManifestKind, RecoverySpoolKind,
};
use crate::private_files::{named_read, published, removed};
use crate::text::{
    decimal, is_digit, joined, lemma_decimal_reads_back, lemma_utf8_concat, split_around,
    without_prefix,
};
use vstd::prelude::*;
use vstd::utf8::*;

verus! {

/// Whether a text consists of hexadecimal digits, hyphens, dots and small letters.
spec fn is_plain(text: Seq<char>) -> bool {
    forall|i: int|
        0 <= i < text.len() ==> is_digit(#[trigger] text[i]) || 'a' <= text[i] <= 'z' || text[i]
            == '-' || text[i] == '.'
}

proof fn lemma_plain_is_component(text: Seq<char>)
    requires
        is_plain(text),
        3 <= text.len() <= 255,
    ensures
        is_component(text),
{
    assert(is_ascii_chars(text));
    is_ascii_chars_encode_utf8(text);
    let bytes = encode_utf8(text);
    assert forall|i: int| 0 <= i < bytes.len() implies bytes[i] != 0 && bytes[i] != 47 by {
        assert(bytes[i] == text[i] as u8);
    }
    reveal_strlit(".");
    reveal_strlit("..");
}

spec fn pow10(k: nat) -> nat
    decreases k,
{
    if k == 0 {
        1
    } else {
        10 * pow10((k - 1) as nat)
    }
}

proof fn lemma_decimal_is_short(n: nat, k: nat)
    requires
        k >= 1,
        n < pow10(k),
    ensures
        decimal(n).len() <= k,
    decreases k,
{
    if n >= 10 {
        assert(k > 1) by {
            assert(pow10(1) == 10) by {
                reveal_with_fuel(pow10, 2);
            }
        }
        assert(pow10(k) == 10 * pow10((k - 1) as nat));
        lemma_decimal_is_short(n / 10, (k - 1) as nat);
    }
}

proof fn lemma_exact_numeral(n: u64)
    requires
        1 <= n <= 9_007_199_254_740_991,
    ensures
        1 <= decimal(n as nat).len() <= 16,
        is_plain(decimal(n as nat)),
        !decimal(n as nat).contains('-'),
        forall|label: Seq<char>| #[trigger] number_failure(label, decimal(n as nat)) is None,
{
    assert(pow10(16) == 10_000_000_000_000_000) by {
        reveal_with_fuel(pow10, 17);
    }
    lemma_decimal_is_short(n as nat, 16);
    lemma_decimal_reads_back(n as nat);
    let digits = decimal(n as nat);
    assert forall|i: int| 0 <= i < digits.len() implies is_digit(#[trigger] digits[i]) by {}
}

proof fn lemma_suffix(unix: u64, serial: u64)
    requires
        1 <= unix <= 9_007_199_254_740_991,
        1 <= serial <= 9_007_199_254_740_991,
    ensures
        suffix_failure(
            seq!['-'] + decimal(unix as nat) + seq!['-'] + decimal(serial as nat),
        ) is None,
{
    let first = decimal(unix as nat);
    let second = decimal(serial as nat);
    let suffix = seq!['-'] + first + seq!['-'] + second;
    let rest = first + seq!['-'] + second;
    lemma_exact_numeral(unix);
    lemma_exact_numeral(serial);
    assert(suffix.take(1) =~= seq!['-']);
    assert(suffix.skip(1) =~= rest);
    let at = first.len() as int;
    assert(rest[at] == '-');
    assert(rest.contains('-'));
    assert forall|j: int| 0 <= j < at implies rest[j] != '-' by {
        assert(rest[j] == first[j]);
        assert(first.contains(first[j]));
    }
    rest.index_of_first_ensures('-');
    assert(rest.index_of_first('-') == Some(at));
    assert(rest.take(at) =~= first);
    assert(rest.skip(at + 1) =~= second);
}

/// The manifests of a capture are named by its epoch, its time and its serial
/// number: every such candidate is accepted, and its plan and its published
/// manifest are named after it.
pub proof fn law_well_formed_candidate_has_its_names(epoch: Seq<char>, unix: u64, serial: u64)
    requires
        is_canonical_uuid(epoch),
        1 <= unix <= 9_007_199_254_740_991,
        1 <= serial <= 9_007_199_254_740_991,
    ensures
        ({
            let stem = epoch + (seq!['-'] + decimal(unix as nat) + seq!['-'] + decimal(
                serial as nat,
            ));
            let candidate = ".capture-"@ + stem;
            manifest_names(candidate) == Ok::<ManifestNames, Failure>(
                ManifestNames {
                    candidate,
                    plan: candidate + ".plan"@,
                    published: "manifest-"@ + stem + ".json"@,
                },
            )
        }),
{
    let suffix = seq!['-'] + decimal(unix as nat) + seq!['-'] + decimal(serial as nat);
    let stem = epoch + suffix;
    let candidate = ".capture-"@ + stem;
    reveal_strlit(".capture-");
    reveal_strlit("manifest-");
    reveal_strlit(".plan");
    reveal_strlit(".json");
    law_canonical_uuid_is_a_shape(epoch);
    lemma_exact_numeral(unix);
    lemma_exact_numeral(serial);
    lemma_suffix(unix, serial);
    assert(candidate.take(9) =~= ".capture-"@);
    assert(candidate.skip(9) =~= stem);
    assert(without_prefix(candidate, ".capture-"@) == Some(stem));
    assert(is_plain(epoch)) by {
        assert forall|i: int| 0 <= i < epoch.len() implies is_digit(#[trigger] epoch[i]) || 'a'
            <= epoch[i] <= 'z' || epoch[i] == '-' || epoch[i] == '.' by {
            if i == 8 || i == 13 || i == 18 || i == 23 {
            } else {
                assert(is_hex_char(epoch[i]));
            }
        }
    }
    assert(is_plain(suffix));
    assert(is_plain(stem));
    assert(is_ascii_chars(epoch));
    assert(is_ascii_chars(suffix));
    is_ascii_chars_encode_utf8(epoch);
    is_ascii_chars_encode_utf8(suffix);
    lemma_utf8_concat(epoch, suffix);
    let bytes = encode_utf8(stem);
    assert(bytes.subrange(0, 36) =~= encode_utf8(epoch));
    assert(bytes.subrange(36, bytes.len() as int) =~= encode_utf8(suffix));
    encode_utf8_decode_utf8(epoch);
    encode_utf8_decode_utf8(suffix);
    assert(stem_parts(stem) == (epoch, suffix));
    assert(is_plain(".capture-"@));
    assert(is_plain(".plan"@));
    assert(is_plain("manifest-"@));
    assert(is_plain(".json"@));
    assert(is_plain(candidate));
    lemma_plain_is_component(candidate);
    lemma_plain_is_component(candidate + ".plan"@);
    lemma_plain_is_component("manifest-"@ + stem + ".json"@);
}

/// Whatever names are accepted, the candidate keeps its own, and the two others
/// are made from it.
pub proof fn law_names_follow_from_the_candidate(candidate: Seq<char>)
    requires
        manifest_names(candidate) is Ok,
    ensures
        ({
            let names = manifest_names(candidate)->Ok_0;
            let stem = candidate.skip(9);
            &&& candidate == ".capture-"@ + stem
            &&& names.candidate == candidate
            &&& names.plan == candidate + ".plan"@
            &&& names.published == "manifest-"@ + stem + ".json"@
            &&& is_component(names.candidate) && is_component(names.plan) && is_component(
                names.published,
            )
            &&& is_canonical_uuid(stem_parts(stem).0)
        }),
{
    reveal_strlit(".capture-");
    assert(candidate =~= ".capture-"@ + candidate.skip(9));
}

/// The five kinds of messages are known by their words, and each has its file.
pub proof fn law_message_kinds_have_their_files(word: Seq<char>)
    ensures
        spool_kind("command"@) == Some(RecoverySpoolKind::Command) && spool_file(
            RecoverySpoolKind::Command,
        ) == "command.json"@,
        spool_kind("response"@) == Some(RecoverySpoolKind::Response) && spool_file(
            RecoverySpoolKind::Response,
        ) == "response.json"@,
        spool_kind("status"@) == Some(RecoverySpoolKind::Status) && spool_file(
            RecoverySpoolKind::Status,
        ) == "status.json"@,
        spool_kind("control"@) == Some(RecoverySpoolKind::Control) && spool_file(
            RecoverySpoolKind::Control,
        ) == "control.json"@,
        spool_kind("initial_snapshot"@) == Some(RecoverySpoolKind::InitialSnapshot) && spool_file(
            RecoverySpoolKind::InitialSnapshot,
        ) == "initial-snapshot.json"@,
        spool_kind(word) is Some ==> word == "command"@ || word == "response"@ || word == "status"@
            || word == "control"@ || word == "initial_snapshot"@,
{
    reveal_strlit("command");
    reveal_strlit("response");
    reveal_strlit("status");
    reveal_strlit("control");
    reveal_strlit("initial_snapshot");
    assert("command"@[2] == 'm' && "control"@[2] == 'n');
    assert("command"@.len() == 7 && "response"@.len() == 8 && "status"@.len() == 6
        && "control"@.len() == 7 && "initial_snapshot"@.len() == 16);
}

/// The three kinds of manifests are known by their words.
pub proof fn law_manifest_kinds_have_their_words(word: Seq<char>)
    ensures
        manifest_kind("candidate"@) == Some(RecoveryManifestKind::Candidate),
        manifest_kind("plan"@) == Some(RecoveryManifestKind::Plan),
        manifest_kind("published"@) == Some(RecoveryManifestKind::Published),
        manifest_kind(word) is Some ==> word == "candidate"@ || word == "plan"@ || word
            == "published"@,
{
    reveal_strlit("candidate");
    reveal_strlit("plan");
    reveal_strlit("published");
    assert("candidate"@[0] == 'c' && "published"@[0] == 'p');
    assert("candidate"@.len() == 9 && "plan"@.len() == 4 && "published"@.len() == 9);
}

/// A message is read, written and removed under the file of its kind, within one
/// mebibyte; what is out of bounds or of no kind is refused before anything is
/// asked for.
pub proof fn law_messages_stand_under_their_kind(
    replies: Seq<Reply>,
    at: int,
    dir: DirView,
    word: Seq<char>,
    raw: Seq<u8>,
    maximum: usize,
    euid: u32,
)
    ensures
        spool_kind(word) is Some && 1 <= maximum <= 1_048_576 ==> message_read(
            replies,
            at,
            dir,
            word,
            maximum,
            euid,
        ) == named_read(replies, at, dir, spool_file(spool_kind(word)->0), maximum, euid),
        spool_kind(word) is Some && raw.len() <= 1_048_576 ==> message_written(
            replies,
            at,
            dir,
            word,
            raw,
            euid,
        ) == published(
            replies,
            at,
            dir,
            spool_file(spool_kind(word)->0),
            raw,
            1_048_576,
            euid,
        ),
        spool_kind(word) is Some ==> message_removed(replies, at, dir, word, euid) == removed(
            replies,
            at,
            dir,
            spool_file(spool_kind(word)->0),
            euid,
        ),
        spool_kind(word) is None || maximum == 0 || maximum > 1_048_576 ==> message_read(
            replies,
            at,
            dir,
            word,
            maximum,
            euid,
        ) matches Err(StopView::Refuse(_)),
        spool_kind(word) is None || raw.len() > 1_048_576 ==> message_written(
            replies,
            at,
            dir,
            word,
            raw,
            euid,
        ) matches Err(StopView::Refuse(_)),
        spool_kind(word) is None ==> message_removed(replies, at, dir, word, euid) matches Err(
            StopView::Refuse(_),
        ),
{
}

/// A manifest is read under the name of its kind, and a candidate or a plan is
/// removed under it, within sixteen mebibytes; only a candidate is written.
pub proof fn law_manifests_stand_under_their_kind(
    replies: Seq<Reply>,
    at: int,
    root: DirView,
    candidate: Seq<char>,
    raw: Seq<u8>,
    maximum: usize,
    euid: u32,
)
    requires
        manifest_names(candidate) is Ok,
    ensures
        ({
            let names = manifest_names(candidate)->Ok_0;
            &&& 1 <= maximum <= 16_777_216 ==> {
                &&& manifest_read(replies, at, root, candidate, "candidate"@, maximum, euid)
                    == named_read(replies, at, root, names.candidate, maximum, euid)
                &&& manifest_read(replies, at, root, candidate, "plan"@, maximum, euid)
                    == named_read(replies, at, root, names.plan, maximum, euid)
                &&& manifest_read(replies, at, root, candidate, "published"@, maximum, euid)
                    == named_read(replies, at, root, names.published, maximum, euid)
            }
            &&& manifest_removed(replies, at, root, candidate, "candidate"@, euid) == removed(
                replies,
                at,
                root,
                names.candidate,
                euid,
            )
            &&& manifest_removed(replies, at, root, candidate, "plan"@, euid) == removed(
                replies,
                at,
                root,
                names.plan,
                euid,
            )
            &&& raw.len() <= 16_777_216 ==> candidate_written(
                replies,
                at,
                root,
                candidate,
                raw,
                euid,
            ) == published(replies, at, root, names.candidate, raw, 16_777_216, euid)
            &&& raw.len() > 16_777_216 ==> (candidate_written(
                replies,
                at,
                root,
                candidate,
                raw,
                euid,
            ) matches Err(StopView::Refuse(_)))
        }),
{
    law_manifest_kinds_have_their_words("candidate"@);
}

/// A limit is accepted from one up to the largest.
pub proof fn law_recovery_limits(maximum: usize, largest: usize)
    ensures
        invalid_limit(maximum, largest) is None <==> 1 <= maximum <= largest,
{
}

/// The messages of an epoch stand in its own directory below the runtime
/// directory, and only a canonical identifier is an epoch.
pub proof fn law_epoch_has_its_directory(
    replies: Seq<Reply>,
    at: int,
    base: BasePath,
    epoch: Seq<char>,
    euid: u32,
)
    ensures
        epoch_dir(replies, at, base, epoch, euid) matches Ok((dir, _)) ==> {
            &&& is_canonical_uuid(epoch)
            &&& dir.slot == Slot::Epoch
            &&& dir.path == joined(joined(joined(base.display@, "dmux"@), "recovery"@), epoch)
        },
        !is_canonical_uuid(epoch) ==> epoch_dir(replies, at, base, epoch, euid) matches Err(
            StopView::Refuse(_),
        ),
{
}

/// The manifests stand in one directory below the data directory.
pub proof fn law_manifests_have_their_directory(
    replies: Seq<Reply>,
    at: int,
    base: BasePath,
    euid: u32,
)
    ensures
        manifest_root(replies, at, base, euid) matches Ok((dir, _)) ==> dir.slot == Slot::Manifests
            && dir.path == joined(joined(base.display@, "dmux"@), "recovery-manifests"@),
{
}

/// Nothing else is a candidate: what is accepted is named by a canonical epoch, a
/// time and a serial number, both written as canonical positive exact integers.
pub proof fn law_accepted_candidate_is_well_formed(candidate: Seq<char>)
    requires
        cuts_between_characters(candidate),
        manifest_names(candidate) is Ok,
    ensures
        exists|epoch: Seq<char>, unix: u64, serial: u64|
            #![trigger candidate_name(epoch, unix, serial)]
            is_canonical_uuid(epoch) && 1 <= unix <= 9_007_199_254_740_991 && 1 <= serial
                <= 9_007_199_254_740_991 && candidate == candidate_name(epoch, unix, serial),
{
    reveal_strlit(".capture-");
    let stem = candidate.skip(9);
    assert(candidate =~= ".capture-"@ + stem);
    assert(without_prefix(candidate, ".capture-"@) == Some(stem));
    let bytes = encode_utf8(stem);
    let (epoch, suffix) = stem_parts(stem);
    encode_utf8_valid_utf8(stem);
    encode_utf8_decode_utf8(stem);
    assert(is_char_boundary(bytes, 36));
    decode_utf8_split(bytes, 36);
    assert(stem =~= epoch + suffix);
    let rest = without_prefix(suffix, seq!['-'])->0;
    assert(suffix =~= seq!['-'] + rest);
    let (first, second) = split_around(rest, '-')->0;
    rest.index_of_first_ensures('-');
    let at = rest.index_of_first('-')->0;
    assert(rest =~= first + seq!['-'] + second);
    lemma_number_is_canonical("unix time"@, first);
    lemma_number_is_canonical("serial"@, second);
    let unix = crate::text::unsigned_value(first)->0 as u64;
    let serial = crate::text::unsigned_value(second)->0 as u64;
    assert(candidate =~= candidate_name(epoch, unix, serial));
}

/// The name of the candidate of an epoch, a time and a serial number.
pub open spec fn candidate_name(epoch: Seq<char>, unix: u64, serial: u64) -> Seq<char> {
    ".capture-"@ + (epoch + (seq!['-'] + decimal(unix as nat) + seq!['-'] + decimal(serial as nat)))
}

proof fn lemma_number_is_canonical(label: Seq<char>, value: Seq<char>)
    requires
        number_failure(label, value) is None,
    ensures
        crate::text::unsigned_value(value) is Some,
        1 <= crate::text::unsigned_value(value)->0 <= 9_007_199_254_740_991,
        decimal(crate::text::unsigned_value(value)->0) == value,
{
}

} // verus!
