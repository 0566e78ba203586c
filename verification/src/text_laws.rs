//! What readings of plain text come to: numbers in hexadecimal, words, the start of
//! a process, canonical documents and tables.

use crate::canonical::{canonical, unsigned_canonical};
use crate::digest::hex_text;
use crate::failure::{failure, Failure};
use crate::identifier::{all_lower_hex, hex_char, is_canonical_uuid};
use crate::json::{without_entry, JsonView};
use crate::order::{bytes_less, lemma_sorted_by_key, sorted_by_key, text_before};
use crate::path_text::is_absolute;
use crate::process_identity::{
    boot_id, boot_of_file, data_base, joined_bytes, listed_token, macos_start_token,
    runtime_base_refusal, start_token, token_of_stat, Platform, ProcessListing,
};
use crate::recovery::TargetView;
use crate::table_schema::{law_schema_is_closed, recovery_fields, recovery_target, KeyView};
use crate::dialogue::{ActionView, FileKind, Reply, StopView};
use crate::text::{
    all_digits, closed_words, closes_at, decimal, digits_value, is_digit, is_space, joined,
    last_close, lemma_decimal_reads_back, split_at_last_close, trimmed, unsigned_value,
    without_char, without_leading_space, without_trailing_space, word_reading, words,
};
use vstd::prelude::*;
use vstd::utf8::*;

verus! {

/// The hexadecimal spelling of bytes has two lowercase digits to a byte.
pub proof fn law_hexadecimal_has_two_digits_to_a_byte(bytes: Seq<u8>)
    ensures
        hex_text(bytes).len() == 2 * bytes.len(),
        all_lower_hex(hex_text(bytes)),
{
    let text = hex_text(bytes);
    assert forall|i: int| 0 <= i < text.len() implies crate::identifier::is_hex_char(
        #[trigger] text[i],
    ) by {
        let b = bytes[i / 2];
        assert(b / 16 < 16 && b % 16 < 16);
    }
}

/// Different bytes have different hexadecimal spellings.
pub proof fn law_hexadecimal_is_unambiguous(left: Seq<u8>, right: Seq<u8>)
    requires
        hex_text(left) == hex_text(right),
    ensures
        left == right,
{
    law_hexadecimal_has_two_digits_to_a_byte(left);
    law_hexadecimal_has_two_digits_to_a_byte(right);
    assert forall|i: int| 0 <= i < left.len() implies left[i] == right[i] by {
        let a = left[i];
        let b = right[i];
        assert(hex_text(left)[2 * i] == hex_char((a / 16) as nat));
        assert(hex_text(right)[2 * i] == hex_char((b / 16) as nat));
        assert(hex_text(left)[2 * i + 1] == hex_char((a % 16) as nat));
        assert(hex_text(right)[2 * i + 1] == hex_char((b % 16) as nat));
        lemma_hex_char_unambiguous((a / 16) as nat, (b / 16) as nat);
        lemma_hex_char_unambiguous((a % 16) as nat, (b % 16) as nat);
        assert(a == 16 * (a / 16) + a % 16);
        assert(b == 16 * (b / 16) + b % 16);
    }
    assert(left =~= right);
}

proof fn lemma_hex_char_unambiguous(a: nat, b: nat)
    requires
        a < 16,
        b < 16,
        hex_char(a) == hex_char(b),
    ensures
        a == b,
{
}

/// Different numbers have different numerals.
pub proof fn law_numerals_are_unambiguous(a: nat, b: nat)
    requires
        decimal(a) == decimal(b),
    ensures
        a == b,
{
    lemma_decimal_reads_back(a);
    lemma_decimal_reads_back(b);
}

/// Whether a text holds no white space.
pub open spec fn is_spaceless(text: Seq<char>) -> bool {
    forall|k: int| 0 <= k < text.len() ==> !is_space(#[trigger] text[k])
}

/// No word holds white space, and none is empty.
pub proof fn law_words_hold_no_space(text: Seq<char>)
    ensures
        forall|i: int|
            0 <= i < words(text).len() ==> (#[trigger] words(text)[i]).len() > 0 && is_spaceless(
                words(text)[i],
            ),
{
    lemma_reading_holds_no_space(text);
}

proof fn lemma_reading_holds_no_space(text: Seq<char>)
    ensures
        forall|i: int|
            0 <= i < word_reading(text).closed.len() ==> (#[trigger] word_reading(
                text,
            ).closed[i]).len() > 0 && is_spaceless(word_reading(text).closed[i]),
        is_spaceless(word_reading(text).open),
    decreases text.len(),
{
    if text.len() > 0 {
        let before = word_reading(text.drop_last());
        lemma_reading_holds_no_space(text.drop_last());
        let now = word_reading(text);
        if is_space(text.last()) {
            assert forall|i: int| 0 <= i < now.closed.len() implies (#[trigger] now.closed[i]).len()
                > 0 && is_spaceless(now.closed[i]) by {
                if i < before.closed.len() {
                    assert(now.closed[i] == before.closed[i]);
                } else {
                    assert(now.closed[i] == before.open);
                }
            }
        } else {
            assert(now.open == before.open.push(text.last()));
            assert forall|k: int| 0 <= k < now.open.len() implies !is_space(
                #[trigger] now.open[k],
            ) by {
                if k < before.open.len() {
                    assert(now.open[k] == before.open[k]);
                }
            }
        }
    }
}

/// The words of two texts with a space between them are the words of the one and
/// then those of the other.
pub proof fn law_words_are_parted_by_space(left: Seq<char>, space: char, right: Seq<char>)
    requires
        is_space(space),
    ensures
        words(left.push(space) + right) == words(left) + words(right),
{
    lemma_words_parted(left, space, right);
    let whole = word_reading(left.push(space) + right);
    assert(words(left.push(space) + right) =~= words(left) + words(right));
}

proof fn lemma_words_parted(left: Seq<char>, space: char, right: Seq<char>)
    requires
        is_space(space),
    ensures
        ({
            let whole = word_reading(left.push(space) + right);
            let rest = word_reading(right);
            whole.closed == words(left) + rest.closed && whole.open == rest.open
        }),
    decreases right.len(),
{
    let text = left.push(space) + right;
    if right.len() == 0 {
        assert(text =~= left.push(space));
        assert(text.drop_last() =~= left);
        assert(words(left) + Seq::<Seq<char>>::empty() =~= words(left));
    } else {
        let shorter = right.drop_last();
        lemma_words_parted(left, space, shorter);
        assert(text.drop_last() =~= left.push(space) + shorter);
        assert(text.last() == right.last());
        let before = word_reading(left.push(space) + shorter);
        let rest = word_reading(shorter);
        if is_space(right.last()) {
            assert(closed_words(before) =~= words(left) + closed_words(rest));
        }
    }
}

/// A trimmed text neither begins nor ends with white space.
pub proof fn law_trimmed_text_has_no_space_around(text: Seq<char>)
    ensures
        trimmed(text).len() > 0 ==> !is_space(trimmed(text)[0]) && !is_space(trimmed(text).last()),
{
    lemma_leading(text);
    lemma_trailing(without_leading_space(text));
}

proof fn lemma_leading(text: Seq<char>)
    ensures
        without_leading_space(text).len() > 0 ==> !is_space(without_leading_space(text)[0]),
    decreases text.len(),
{
    if text.len() > 0 && is_space(text[0]) {
        lemma_leading(text.drop_first());
    }
}

proof fn lemma_trailing(text: Seq<char>)
    ensures
        without_trailing_space(text).len() > 0 ==> !is_space(without_trailing_space(text).last())
            && without_trailing_space(text)[0] == text[0],
    decreases text.len(),
{
    if text.len() > 0 && is_space(text.last()) {
        lemma_trailing(text.drop_last());
    }
}

/// Dropping a character leaves none of it, and leaves a text without it as it is.
pub proof fn law_dropped_character_is_gone(text: Seq<char>, dropped: char)
    ensures
        !without_char(text, dropped).contains(dropped),
        !text.contains(dropped) ==> without_char(text, dropped) == text,
        forall|c: char|
            c != dropped ==> (#[trigger] without_char(text, dropped).contains(c) <==> text.contains(
                c,
            )),
    decreases text.len(),
{
    if text.len() > 0 {
        let head = text.drop_last();
        let last = text.last();
        law_dropped_character_is_gone(head, dropped);
        assert(text[text.len() - 1] == last);
        let rest = without_char(head, dropped);
        let all = without_char(text, dropped);
        assert forall|c: char| #[trigger] text.contains(c) <==> head.contains(c) || c == last by {
            if head.contains(c) {
                let at = choose|at: int| 0 <= at < head.len() && head[at] == c;
                assert(text[at] == c);
            }
            if text.contains(c) {
                let at = choose|at: int| 0 <= at < text.len() && text[at] == c;
                if at < head.len() {
                    assert(head[at] == c);
                }
            }
        }
        if last != dropped {
            assert(all == rest.push(last));
            assert forall|c: char| #[trigger] all.contains(c) <==> rest.contains(c) || c == last by {
                if rest.contains(c) {
                    let at = choose|at: int| 0 <= at < rest.len() && rest[at] == c;
                    assert(all[at] == c);
                }
                if c == last {
                    assert(all[rest.len() as int] == c);
                }
                if all.contains(c) {
                    let at = choose|at: int| 0 <= at < all.len() && all[at] == c;
                    if at < rest.len() {
                        assert(rest[at] == c);
                    }
                }
            }
            if !text.contains(dropped) {
                assert(all =~= text);
            }
        } else {
            assert(text.contains(dropped));
        }
    }
}

proof fn lemma_last_close(text: Seq<char>, at: int, below: int)
    requires
        closes_at(text, at),
        at < below <= text.len(),
        forall|j: int| at < j < below ==> !#[trigger] closes_at(text, j),
    ensures
        last_close(text, below) == Some(at),
    decreases below,
{
    if below - 1 > at {
        assert(!closes_at(text, below - 1));
        lemma_last_close(text, at, below - 1);
    }
}

proof fn lemma_number_is_trimmed(n: nat)
    ensures
        trimmed(decimal(n).push(' ')) == decimal(n),
{
    lemma_decimal_reads_back(n);
    let digits = decimal(n);
    let text = digits.push(' ');
    assert(is_digit(digits[0]) && is_digit(digits[digits.len() - 1]));
    assert(text[0] == digits[0]);
    assert(!is_space(text[0]));
    assert(without_leading_space(text) == text);
    assert(text.last() == ' ');
    assert(text.drop_last() =~= digits);
    assert(!is_space(digits.last()));
    assert(without_trailing_space(digits) == digits);
}

/// The start of a process is read from the line about it whatever its name is: the
/// twentieth word behind the name, as an exact positive number. The name may hold
/// spaces and brackets.
pub proof fn law_start_is_read_whatever_the_name(
    raw: Seq<u8>,
    pid: u32,
    name: Seq<char>,
    rest: Seq<char>,
    ticks: u64,
)
    requires
        raw == encode_utf8(decimal(pid as nat) + seq![' ', '('] + name + seq![')', ' '] + rest),
        forall|j: int| !#[trigger] closes_at(rest, j),
        words(rest).len() > 19,
        words(rest)[19] == decimal(ticks as nat),
        1 <= ticks <= 9_007_199_254_740_991,
    ensures
        token_of_stat(raw, pid) == Ok::<Seq<char>, Failure>("linux:"@ + decimal(ticks as nat)),
{
    let number = decimal(pid as nat);
    let text = number + seq![' ', '('] + name + seq![')', ' '] + rest;
    encode_utf8_valid_utf8(text);
    encode_utf8_decode_utf8(text);
    lemma_decimal_reads_back(pid as nat);
    lemma_decimal_reads_back(ticks as nat);
    let head = number + seq![' ', '('] + name;
    let at = head.len() as int;
    assert(text[at] == ')' && text[at + 1] == ' ');
    assert(closes_at(text, at));
    assert forall|j: int| at < j < text.len() implies !#[trigger] closes_at(text, j) by {
        if j > at + 1 {
            let k = j - at - 2;
            assert(text[j] == rest[k]);
            if j + 1 < text.len() {
                assert(text[j + 1] == rest[k + 1]);
            }
            assert(!closes_at(rest, k));
        }
    }
    lemma_last_close(text, at, text.len() as int);
    assert(text.take(at) =~= head);
    assert(text.skip(at + 2) =~= rest);
    let open = number.len() as int + 1;
    assert(head[open] == '(');
    assert(head.contains('('));
    assert forall|j: int| 0 <= j < open implies head[j] != '(' by {
        if j < number.len() {
            assert(is_digit(number[j]));
        }
    }
    let found = head.index_of_first('(');
    head.index_of_first_ensures('(');
    assert(found == Some(open));
    assert(head.take(open) =~= number.push(' '));
    lemma_number_is_trimmed(pid as nat);
}

/// The start token of a process that was read from the line about it names an exact
/// positive number of ticks.
pub proof fn law_start_token_is_exact(raw: Seq<u8>, pid: u32)
    ensures
        token_of_stat(raw, pid) matches Ok(token) ==> exists|ticks: u64|
            1 <= ticks <= 9_007_199_254_740_991 && token == "linux:"@ + #[trigger] decimal(
                ticks as nat,
            ),
{
    if token_of_stat(raw, pid) is Ok {
        let (_, suffix) = split_at_last_close(decode_utf8(raw))->0;
        let ticks = unsigned_value(words(suffix)[19])->0;
        assert(decimal(ticks) == decimal((ticks as u64) as nat));
    }
}

/// The start of a process on the other system is what it says in seconds and
/// millionths, for this process of this user only.
pub proof fn law_reported_start_is_this_process(
    replies: Seq<Reply>,
    at: int,
    pid: u32,
    euid: u32,
)
    ensures
        macos_start_token(replies, at, pid, euid) is Ok <==> at < replies.len() && (replies[at] matches Reply::Process(
            info,
        ) && info.pid == pid && info.uid == euid && info.start_seconds > 0 && info.start_micros
            <= 999_999),
        macos_start_token(replies, at, pid, euid) matches Ok((token, end)) ==> end == at + 1
            && token == "macos:"@ + decimal(replies[at]->Process_0.start_seconds as nat) + ":"@
            + decimal(replies[at]->Process_0.start_micros as nat),
{
}

/// The boot of the system is a canonical identifier, whatever white space is
/// around it.
pub proof fn law_boot_is_an_identifier(raw: Seq<u8>)
    ensures
        boot_of_file(raw) is Ok <==> valid_utf8(raw) && is_canonical_uuid(
            trimmed(decode_utf8(raw)),
        ),
        boot_of_file(raw) matches Ok(boot) ==> boot == "linux:"@ + trimmed(decode_utf8(raw)),
{
}

/// A process that was listed is known by what the listing says of its start, where
/// it says anything, and at most 256 bytes.
pub proof fn law_listed_start_is_bounded(pid: u32, listing: ProcessListing)
    ensures
        listed_token(pid, listing) is Ok <==> listing.success && valid_utf8(listing.stdout@)
            && trimmed(decode_utf8(listing.stdout@)).len() > 0 && encode_utf8(
            trimmed(decode_utf8(listing.stdout@)),
        ).len() <= 256,
        listed_token(pid, listing) matches Ok(token) ==> token == trimmed(
            decode_utf8(listing.stdout@),
        ),
{
}

/// The runtime directory and the data directory are absolute. The data directory
/// is the configured one where it is set and not empty, else the one below the
/// home directory.
pub proof fn law_base_directories_are_absolute(
    runtime: Option<Seq<u8>>,
    xdg: Option<Seq<u8>>,
    home: Option<Seq<u8>>,
)
    ensures
        runtime_base_refusal(runtime) is None <==> runtime is Some && is_absolute(runtime->0),
        data_base(xdg, home) matches Ok(path) ==> is_absolute(path),
        xdg is Some && xdg->0.len() > 0 ==> (data_base(xdg, home) == if is_absolute(xdg->0) {
            Ok::<Seq<u8>, Failure>(xdg->0)
        } else {
            Err(failure("data_unavailable"@, "dmux data base must be absolute"@))
        }),
        (xdg is None || xdg->0.len() == 0) && home is Some && is_absolute(home->0) ==> data_base(
            xdg,
            home,
        ) == Ok::<Seq<u8>, Failure>(joined_bytes(home->0, encode_utf8(".local/share"@))),
        (xdg is None || xdg->0.len() == 0) && home is None ==> data_base(xdg, home) is Err,
{
}

/// A name is joined to a directory with exactly one separator between them.
pub proof fn law_joined_path_is_below_its_base(base: Seq<u8>, name: Seq<u8>)
    requires
        base.len() > 0,
    ensures
        ({
            let path = joined_bytes(base, name);
            let cut = path.len() - name.len();
            &&& path.skip(cut) == name
            &&& path[cut - 1] == 47u8
            &&& path.take(cut) == base || path.take(cut) == base.push(47u8)
            &&& is_absolute(base) ==> is_absolute(path)
        }),
{
    let path = joined_bytes(base, name);
    let cut = path.len() - name.len();
    assert(path.skip(cut) =~= name);
    if base.last() == 47 {
        assert(path.take(cut) =~= base);
    } else {
        assert(path.take(cut) =~= base.push(47u8));
    }
}

/// Whether a document holds nothing that has no canonical text: no null, and only
/// numbers that are exact integers.
pub open spec fn is_exact(value: JsonView) -> bool
    decreases value,
{
    match value {
        JsonView::Null => false,
        JsonView::Bool(_) => true,
        JsonView::Text(_) => true,
        JsonView::Number(number) => match (number.unsigned, number.signed) {
            (Some(n), _) => n <= 9_007_199_254_740_991,
            (None, Some(n)) => -9_007_199_254_740_991 <= n <= 9_007_199_254_740_991,
            (None, None) => false,
        },
        JsonView::Array(items) => forall|i: int|
            0 <= i < items.len() ==> is_exact(#[trigger] items[i]),
        JsonView::Object(entries) => forall|i: int|
            0 <= i < entries.len() ==> is_exact((#[trigger] entries[i]).1),
    }
}

/// Exactly the documents without a null and with exact integers only have a
/// canonical text.
pub proof fn law_exact_document_has_a_canonical_text(value: JsonView)
    ensures
        canonical(value) is Ok <==> is_exact(value),
    decreases value,
{
    match value {
        JsonView::Array(items) => {
            assert forall|i: int| 0 <= i < items.len() implies (canonical(#[trigger] items[i]) is Ok
                <==> is_exact(items[i])) by {
                law_exact_document_has_a_canonical_text(items[i]);
            }
            crate::canonical::lemma_array_text(items);
        },
        JsonView::Object(entries) => {
            assert forall|i: int| 0 <= i < entries.len() implies (canonical(
                (#[trigger] entries[i]).1,
            ) is Ok <==> is_exact(entries[i].1)) by {
                law_exact_document_has_a_canonical_text(entries[i].1);
            }
            crate::canonical::lemma_object_text(entries);
        },
        _ => {},
    }
}

/// The text that is signed does not depend on the signature.
pub proof fn law_signature_does_not_sign_itself(
    object: Seq<(Seq<char>, JsonView)>,
    at: int,
    signature: JsonView,
)
    requires
        0 <= at < object.len(),
        object[at].0 == "hmac_sha256"@,
    ensures
        unsigned_canonical(object.update(at, ("hmac_sha256"@, signature))) == unsigned_canonical(
            object,
        ),
{
    lemma_dropped_entry(object, at, signature, "hmac_sha256"@);
}

proof fn lemma_dropped_entry(
    entries: Seq<(Seq<char>, JsonView)>,
    at: int,
    value: JsonView,
    name: Seq<char>,
)
    requires
        0 <= at < entries.len(),
        entries[at].0 == name,
    ensures
        without_entry(entries.update(at, (name, value)), name) == without_entry(entries, name),
    decreases entries.len(),
{
    reveal(Seq::filter);
    let changed = entries.update(at, (name, value));
    if at == entries.len() - 1 {
        assert(changed.drop_last() =~= entries.drop_last());
    } else {
        lemma_dropped_entry(entries.drop_last(), at, value, name);
        assert(changed.drop_last() =~= entries.drop_last().update(at, (name, value)));
    }
}

/// A request for a removal is read exactly where it names one of the three kinds,
/// holds no other field, and has each field of its kind; the target carries them
/// unchanged.
pub proof fn law_removal_request_carries_its_target(
    keys: Seq<KeyView>,
    kind: Seq<char>,
    native_id: Result<usize, Seq<char>>,
    parent_tab_id: Result<usize, Seq<char>>,
    parent_window_id: Result<usize, Seq<char>>,
    workspace: Result<Seq<char>, Seq<char>>,
)
    ensures
        ({
            let target = recovery_target(
                keys,
                Ok(kind),
                native_id,
                parent_tab_id,
                parent_window_id,
                workspace,
            );
            let closed = forall|i: int|
                0 <= i < keys.len() ==> (#[trigger] keys[i]) is Text && recovery_fields(
                    kind,
                ).contains(keys[i]->Text_0);
            &&& kind == "pane"@ ==> (target is Ok <==> closed && native_id is Ok && parent_tab_id
                is Ok && parent_window_id is Ok)
            &&& kind == "pane"@ && target is Ok ==> target->Ok_0 == (TargetView::Pane {
                pane_id: native_id->Ok_0,
                parent_tab_id: parent_tab_id->Ok_0,
                parent_window_id: parent_window_id->Ok_0,
            })
            &&& kind == "tab"@ ==> (target is Ok <==> closed && native_id is Ok && parent_window_id
                is Ok)
            &&& kind == "tab"@ && target is Ok ==> target->Ok_0 == (TargetView::Tab {
                tab_id: native_id->Ok_0,
                parent_window_id: parent_window_id->Ok_0,
            })
            &&& kind == "window"@ ==> (target is Ok <==> closed && native_id is Ok && workspace
                is Ok && workspace->Ok_0.len() > 0)
            &&& kind == "window"@ && target is Ok ==> target->Ok_0 == (TargetView::Window {
                window_id: native_id->Ok_0,
                workspace: workspace->Ok_0,
            })
            &&& kind != "pane"@ && kind != "tab"@ && kind != "window"@ ==> target is Err
        }),
{
    reveal_strlit("pane");
    reveal_strlit("tab");
    reveal_strlit("window");
    assert("pane"@.len() == 4 && "tab"@.len() == 3 && "window"@.len() == 6);
    law_schema_is_closed(
        keys,
        recovery_fields(kind),
        "dmux recovery request keys must be strings, got "@,
        ""@,
        "unknown field "@,
        " for dmux recovery "@ + kind + " request"@,
    );
}

/// The fields of a removal request are, beside its kind and the number of the node,
/// the parents of that kind of node.
pub proof fn law_removal_request_fields(name: Seq<char>)
    ensures
        recovery_fields("pane"@).contains(name) <==> name == "kind"@ || name == "native_id"@ || name
            == "parent_tab_id"@ || name == "parent_window_id"@,
        recovery_fields("tab"@).contains(name) <==> name == "kind"@ || name == "native_id"@ || name
            == "parent_window_id"@,
        recovery_fields("window"@).contains(name) <==> name == "kind"@ || name == "native_id"@
            || name == "workspace"@,
{
    reveal_strlit("pane");
    reveal_strlit("tab");
    reveal_strlit("window");
    assert("pane"@.len() == 4 && "tab"@.len() == 3 && "window"@.len() == 6);
    let p = recovery_fields("pane"@);
    let t = recovery_fields("tab"@);
    let w = recovery_fields("window"@);
    assert(p[0] == "kind"@ && p[1] == "native_id"@ && p[2] == "parent_tab_id"@ && p[3]
        == "parent_window_id"@);
    assert(t[0] == "kind"@ && t[1] == "native_id"@ && t[2] == "parent_window_id"@);
    assert(w[0] == "kind"@ && w[1] == "native_id"@ && w[2] == "workspace"@);
}

/// The start of a process is believed only of a directory of this user under the
/// number of the process, and of at most 4096 bytes about it.
pub proof fn law_process_is_looked_up_by_its_number(
    replies: Seq<Reply>,
    at: int,
    pid: u32,
    euid: u32,
)
    requires
        0 <= at,
    ensures
        start_token(replies, at, Platform::Linux, pid, euid) is Ok <==> {
            &&& 1 <= pid <= 2_147_483_647
            &&& at + 1 < replies.len()
            &&& replies[at] is Stat && replies[at]->Stat_0.kind == FileKind::Directory
                && replies[at]->Stat_0.uid == euid
            &&& replies[at + 1] is Bytes && replies[at + 1]->Bytes_0@.len() <= 4096
            &&& token_of_stat(replies[at + 1]->Bytes_0@, pid) is Ok
        },
        start_token(replies, at, Platform::Linux, pid, euid) matches Ok((token, end)) ==> {
            &&& end == at + 2
            &&& token_of_stat(replies[at + 1]->Bytes_0@, pid) == Ok::<Seq<char>, Failure>(token)
            &&& start_token(replies.take(at), at, Platform::Linux, pid, euid)->Err_0
                == StopView::Await(ActionView::StatPath { path: "/proc/"@ + decimal(pid as nat) })
            &&& start_token(replies.take(at + 1), at, Platform::Linux, pid, euid)->Err_0
                == StopView::Await(
                ActionView::ReadSystemFile {
                    path: joined("/proc/"@ + decimal(pid as nat), "stat"@),
                    limit: 4097,
                },
            )
        },
{
}

/// The boot is read from the file of the system, of at most 128 bytes.
pub proof fn law_boot_is_read_from_the_system(replies: Seq<Reply>, at: int)
    requires
        0 <= at,
    ensures
        boot_id(replies, at, Platform::Linux) is Ok <==> at < replies.len() && replies[at] is Bytes
            && replies[at]->Bytes_0@.len() <= 128 && boot_of_file(replies[at]->Bytes_0@) is Ok,
        boot_id(replies, at, Platform::Linux) matches Ok((boot, end)) ==> end == at + 1
            && boot_of_file(replies[at]->Bytes_0@) == Ok::<Seq<char>, Failure>(boot),
        boot_id(replies, at, Platform::Macos) is Ok <==> at < replies.len() && (
        replies[at] matches Reply::BootTime { seconds, micros, pending } && seconds > 0 && 0
            <= micros <= 999_999),
        boot_id(replies, at, Platform::Macos) matches Ok((boot, end)) ==> end == at + 1 && (
        replies[at] matches Reply::BootTime { seconds, micros, pending } && boot == "macos:"@
            + decimal(seconds as nat) + ":"@ + decimal(micros as nat)),
        at < replies.len() ==> boot_id(replies.take(at), at, Platform::Linux)->Err_0
            == StopView::Await(
            ActionView::ReadSystemFile { path: "/proc/sys/kernel/random/boot_id"@, limit: 129 },
        ),
{
}

/// One text stands before another exactly where their bytes are the same up to a
/// place at which it ends or has the smaller byte.
pub proof fn law_text_is_ordered_by_its_bytes(left: Seq<u8>, right: Seq<u8>)
    ensures
        bytes_less(left, right) <==> exists|k: int|
            0 <= k <= left.len() && k < right.len() && #[trigger] left.take(k) == right.take(k) && (
            k == left.len() || left[k] < right[k]),
    decreases left.len(),
{
    if left.len() > 0 && right.len() > 0 && left[0] == right[0] {
        let l = left.drop_first();
        let r = right.drop_first();
        law_text_is_ordered_by_its_bytes(l, r);
        if bytes_less(l, r) {
            let k = choose|k: int|
                0 <= k <= l.len() && k < r.len() && #[trigger] l.take(k) == r.take(k) && (k
                    == l.len() || l[k] < r[k]);
            assert(left.take(k + 1) =~= right.take(k + 1)) by {
                assert forall|i: int| 0 <= i < k + 1 implies left[i] == right[i] by {
                    if i > 0 {
                        assert(l.take(k)[i - 1] == r.take(k)[i - 1]);
                    }
                }
            }
            if k < l.len() {
                assert(left[k + 1] == l[k] && right[k + 1] == r[k]);
            }
        }
        if exists|k: int|
            0 <= k <= left.len() && k < right.len() && #[trigger] left.take(k) == right.take(k) && (
            k == left.len() || left[k] < right[k]) {
            let k = choose|k: int|
                0 <= k <= left.len() && k < right.len() && #[trigger] left.take(k) == right.take(k)
                    && (k == left.len() || left[k] < right[k]);
            assert(k > 0);
            assert(l.take(k - 1) =~= r.take(k - 1)) by {
                assert forall|i: int| 0 <= i < k - 1 implies l[i] == r[i] by {
                    assert(left.take(k)[i + 1] == right.take(k)[i + 1]);
                }
            }
            if k < left.len() {
                assert(l[k - 1] == left[k] && r[k - 1] == right[k]);
            }
        }
    } else {
        assert(left.take(0) =~= right.take(0));
        if exists|k: int|
            0 <= k <= left.len() && k < right.len() && #[trigger] left.take(k) == right.take(k) && (
            k == left.len() || left[k] < right[k]) {
            let k = choose|k: int|
                0 <= k <= left.len() && k < right.len() && #[trigger] left.take(k) == right.take(k)
                    && (k == left.len() || left[k] < right[k]);
            if k > 0 {
                assert(left.take(k)[0] == right.take(k)[0]);
            }
        }
    }
}

/// Sorting by name keeps every field once and puts them in order.
pub proof fn law_sorting_orders_and_keeps<T>(row: Seq<(Seq<char>, T)>)
    ensures
        sorted_by_key(row).to_multiset() == row.to_multiset(),
        forall|i: int, j: int|
            0 <= i < j < row.len() ==> !text_before(
                (#[trigger] sorted_by_key(row)[j]).0,
                (#[trigger] sorted_by_key(row)[i]).0,
            ),
{
    lemma_sorted_by_key(row);
}

/// A number is read from one or more digits, with or without a plus sign before
/// them, and from nothing else. Each further digit counts ten times what stands
/// before it and itself.
pub proof fn law_numbers_are_read_from_digits(text: Seq<char>, digit: char)
    ensures
        unsigned_value(text) is Some <==> (text.len() > 0 && all_digits(text)) || (text.len() > 1
            && text[0] == '+' && all_digits(text.drop_first())),
        is_digit(digit) && text.len() > 0 && all_digits(text) ==> unsigned_value(text.push(digit))
            == Some((10 * unsigned_value(text)->0 + (digit as nat - 48)) as nat),
        is_digit(digit) ==> unsigned_value(seq![digit]) == Some((digit as nat - 48) as nat),
{
    if text.len() > 0 && text[0] == '+' {
        assert(!is_digit(text[0]));
    }
    if is_digit(digit) {
        let longer = text.push(digit);
        if text.len() > 0 && all_digits(text) {
            assert(is_digit(text[0]) && longer[0] == text[0]);
            assert forall|i: int| 0 <= i < longer.len() implies is_digit(#[trigger] longer[i]) by {
                if i < text.len() {
                    assert(is_digit(text[i]));
                }
            }
            assert(longer.drop_last() =~= text);
        }
        let one = seq![digit];
        assert(one.drop_last() =~= Seq::<char>::empty());
        assert(digits_value(one.drop_last()) == 0);
        assert(is_digit(one[0]));
    }
}

} // verus!
