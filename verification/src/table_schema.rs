//! Requests that arrive as script tables. Their fields are a closed set: a key
//! that is no string, or an unknown field, refuses the whole request.

use crate::failure::{debug_quoted, debug_text};
use crate::mux::Mux;
use crate::recovery::{
    blank_outcome, outcome_is, removal_state, OutcomeView, RecoveryRemoveOutcome,
    RecoveryRemoveStatus, RecoveryRemoveTarget, TargetView,
};
use crate::text::same_text;
use vstd::prelude::*;

verus! {

/// A key of a table: a string, a key of another type with the name of the type,
/// or a string that cannot be read, with the reason.
#[derive(Debug)]
pub enum TableKey {
    Text(String),
    OtherType(String),
    Unreadable(String),
}

/// The view of a [`TableKey`].
pub enum KeyView {
    Text(Seq<char>),
    OtherType(Seq<char>),
    Unreadable(Seq<char>),
}

impl View for TableKey {
    type V = KeyView;

    open spec fn view(&self) -> KeyView {
        match *self {
            TableKey::Text(text) => KeyView::Text(text@),
            TableKey::OtherType(name) => KeyView::OtherType(name@),
            TableKey::Unreadable(reason) => KeyView::Unreadable(reason@),
        }
    }
}

/// How refusals are worded, before and behind the name of the type or field.
#[derive(Clone, Copy)]
pub struct SchemaWords<'a> {
    pub before_type: &'a str,
    pub behind_type: &'a str,
    pub before_field: &'a str,
    pub behind_field: &'a str,
}

/// The views of a row of names.
pub open spec fn names_of(names: Seq<&str>) -> Seq<Seq<char>> {
    names.map_values(|s: &str| s@)
}

/// The refusal of one key, if it is refused.
pub open spec fn key_refusal(
    key: KeyView,
    allowed: Seq<Seq<char>>,
    before_type: Seq<char>,
    behind_type: Seq<char>,
    before_field: Seq<char>,
    behind_field: Seq<char>,
) -> Option<Seq<char>> {
    match key {
        KeyView::Unreadable(reason) => Some(reason),
        KeyView::OtherType(name) => Some(before_type + name + behind_type),
        KeyView::Text(text) => if allowed.contains(text) {
            None
        } else {
            Some(before_field + debug_quoted(text) + behind_field)
        },
    }
}

/// The refusal of the first key that is refused.
pub open spec fn keys_refusal(
    keys: Seq<KeyView>,
    allowed: Seq<Seq<char>>,
    before_type: Seq<char>,
    behind_type: Seq<char>,
    before_field: Seq<char>,
    behind_field: Seq<char>,
) -> Option<Seq<char>>
    decreases keys.len(),
{
    if keys.len() == 0 {
        None
    } else {
        let first = key_refusal(
            keys[0],
            allowed,
            before_type,
            behind_type,
            before_field,
            behind_field,
        );
        if first is Some {
            first
        } else {
            keys_refusal(
                keys.drop_first(),
                allowed,
                before_type,
                behind_type,
                before_field,
                behind_field,
            )
        }
    }
}

fn is_allowed(allowed: &Vec<&str>, text: &str) -> (yes: bool)
    ensures
        yes == names_of(allowed@).contains(text@),
{
    let ghost names = names_of(allowed@);
    let mut i: usize = 0;
    while i < allowed.len()
        invariant
            i <= allowed@.len(),
            names == names_of(allowed@),
            forall|k: int| 0 <= k < i ==> (#[trigger] names[k]) != text@,
        decreases allowed@.len() - i,
    {
        if same_text(allowed[i], text) {
            assert(names[i as int] == text@);
            return true;
        }
        assert(names[i as int] == allowed@[i as int]@);
        i += 1;
    }
    false
}

/// Checks the keys of a table against the allowed fields.
pub fn check_keys(keys: &Vec<TableKey>, allowed: &Vec<&str>, words: SchemaWords) -> (result: Result<
    (),
    String,
>)
    ensures
        ({
            let refusal = keys_refusal(
                keys@.map_values(|k: TableKey| k@),
                names_of(allowed@),
                words.before_type@,
                words.behind_type@,
                words.before_field@,
                words.behind_field@,
            );
            match result {
                Ok(()) => refusal is None,
                Err(text) => refusal == Some(text@),
            }
        }),
{
    let ghost all = keys@.map_values(|k: TableKey| k@);
    let ghost names = names_of(allowed@);
    let mut i: usize = 0;
    assert(all.skip(0) =~= all);
    while i < keys.len()
        invariant
            i <= keys@.len(),
            all == keys@.map_values(|k: TableKey| k@),
            names == names_of(allowed@),
            keys_refusal(
                all,
                names,
                words.before_type@,
                words.behind_type@,
                words.before_field@,
                words.behind_field@,
            ) == keys_refusal(
                all.skip(i as int),
                names,
                words.before_type@,
                words.behind_type@,
                words.before_field@,
                words.behind_field@,
            ),
        decreases keys@.len() - i,
    {
        assert(all.skip(i as int)[0] == keys@[i as int]@);
        assert(all.skip(i as int).drop_first() =~= all.skip(i + 1));
        match &keys[i] {
            TableKey::Unreadable(reason) => {
                return Err(reason.clone());
            },
            TableKey::OtherType(name) => {
                return Err(
                    words.before_type.to_owned().concat(name.as_str()).concat(words.behind_type),
                );
            },
            TableKey::Text(text) => {
                if !is_allowed(allowed, text.as_str()) {
                    return Err(
                        words.before_field.to_owned().concat(
                            debug_text(text.as_str()).as_str(),
                        ).concat(words.behind_field),
                    );
                }
            },
        }
        i += 1;
    }
    Ok(())
}

/// A closed schema admits a table exactly when every key is one of its fields.
pub proof fn law_schema_is_closed(
    keys: Seq<KeyView>,
    allowed: Seq<Seq<char>>,
    before_type: Seq<char>,
    behind_type: Seq<char>,
    before_field: Seq<char>,
    behind_field: Seq<char>,
)
    ensures
        keys_refusal(
            keys,
            allowed,
            before_type,
            behind_type,
            before_field,
            behind_field,
        ) is None <==> forall|i: int|
            0 <= i < keys.len() ==> (#[trigger] keys[i]) is Text && allowed.contains(
                keys[i]->Text_0,
            ),
    decreases keys.len(),
{
    if keys.len() > 0 {
        let rest = keys.drop_first();
        law_schema_is_closed(
            rest,
            allowed,
            before_type,
            behind_type,
            before_field,
            behind_field,
        );
        if forall|i: int|
            0 <= i < keys.len() ==> (#[trigger] keys[i]) is Text && allowed.contains(
                keys[i]->Text_0,
            ) {
            assert forall|i: int| 0 <= i < rest.len() implies (#[trigger] rest[i]) is Text
                && allowed.contains(rest[i]->Text_0) by {
                assert(rest[i] == keys[i + 1]);
            }
            assert(keys[0] is Text && allowed.contains(keys[0]->Text_0));
        }
        if keys_refusal(keys, allowed, before_type, behind_type, before_field, behind_field)
            is None {
            assert forall|i: int| 0 <= i < keys.len() implies (#[trigger] keys[i]) is Text
                && allowed.contains(keys[i]->Text_0) by {
                if i > 0 {
                    assert(keys[i] == rest[i - 1]);
                }
            }
        }
    }
}

/// The error of a field that could not be read.
pub open spec fn field_error<T>(field: Result<T, String>) -> Option<Seq<char>> {
    match field {
        Ok(_) => None,
        Err(reason) => Some(reason@),
    }
}

/// The first of two errors.
pub open spec fn either_error(left: Option<Seq<char>>, right: Option<Seq<char>>) -> Option<
    Seq<char>,
> {
    if left is Some {
        left
    } else {
        right
    }
}

/// A removal request as its table holds it: the keys, and each field as it
/// could be read.
#[derive(Debug)]
pub struct RecoveryRequest {
    pub keys: Vec<TableKey>,
    pub kind: Result<String, String>,
    pub native_id: Result<usize, String>,
    pub parent_tab_id: Result<usize, String>,
    pub parent_window_id: Result<usize, String>,
    pub workspace: Result<String, String>,
}

/// The fields of a removal request of some kind.
pub open spec fn recovery_fields(kind: Seq<char>) -> Seq<Seq<char>> {
    if kind == "pane"@ {
        seq!["kind"@, "native_id"@, "parent_tab_id"@, "parent_window_id"@]
    } else if kind == "tab"@ {
        seq!["kind"@, "native_id"@, "parent_window_id"@]
    } else {
        seq!["kind"@, "native_id"@, "workspace"@]
    }
}

/// What a field that was read says.
pub open spec fn read_id(field: Result<usize, String>) -> Result<usize, Seq<char>> {
    match field {
        Ok(id) => Ok(id),
        Err(reason) => Err(reason@),
    }
}

/// What a text field that was read says.
pub open spec fn read_text(field: Result<String, String>) -> Result<Seq<char>, Seq<char>> {
    match field {
        Ok(text) => Ok(text@),
        Err(reason) => Err(reason@),
    }
}

/// The target that a removal request names, or the first refusal owed to it.
pub open spec fn recovery_target(
    keys: Seq<KeyView>,
    kind: Result<Seq<char>, Seq<char>>,
    native_id: Result<usize, Seq<char>>,
    parent_tab_id: Result<usize, Seq<char>>,
    parent_window_id: Result<usize, Seq<char>>,
    workspace: Result<Seq<char>, Seq<char>>,
) -> Result<TargetView, Seq<char>> {
    match kind {
        Err(reason) => Err(reason),
        Ok(kind) => if kind != "pane"@ && kind != "tab"@ && kind != "window"@ {
            Err(
                "invalid dmux recovery node kind "@ + debug_quoted(kind)
                    + "; expected pane, tab, or window"@,
            )
        } else {
            let refusal = keys_refusal(
                keys,
                recovery_fields(kind),
                "dmux recovery request keys must be strings, got "@,
                ""@,
                "unknown field "@,
                " for dmux recovery "@ + kind + " request"@,
            );
            if refusal is Some {
                Err(refusal->0)
            } else {
                match native_id {
                    Err(reason) => Err(reason),
                    Ok(native_id) => if kind == "pane"@ {
                        match (parent_tab_id, parent_window_id) {
                            (Err(reason), _) => Err(reason),
                            (Ok(_), Err(reason)) => Err(reason),
                            (Ok(parent_tab_id), Ok(parent_window_id)) => Ok(
                                TargetView::Pane {
                                    pane_id: native_id,
                                    parent_tab_id,
                                    parent_window_id,
                                },
                            ),
                        }
                    } else if kind == "tab"@ {
                        match parent_window_id {
                            Err(reason) => Err(reason),
                            Ok(parent_window_id) => Ok(
                                TargetView::Tab { tab_id: native_id, parent_window_id },
                            ),
                        }
                    } else {
                        match workspace {
                            Err(reason) => Err(reason),
                            Ok(workspace) => if workspace.len() == 0 {
                                Err("dmux recovery window workspace must not be empty"@)
                            } else {
                                Ok(TargetView::Window { window_id: native_id, workspace })
                            },
                        }
                    },
                }
            }
        },
    }
}

fn recovery_field_names(kind: &str) -> (names: Vec<&'static str>)
    ensures
        names_of(names@) == recovery_fields(kind@),
{
    let mut names: Vec<&'static str> = Vec::new();
    names.push("kind");
    names.push("native_id");
    if same_text(kind, "pane") {
        names.push("parent_tab_id");
        names.push("parent_window_id");
    } else if same_text(kind, "tab") {
        names.push("parent_window_id");
    } else {
        names.push("workspace");
    }
    assert(names_of(names@) =~= recovery_fields(kind@));
    names
}

/// Reads a removal request.
pub fn parse_recovery_remove_target(request: RecoveryRequest) -> (result: Result<
    RecoveryRemoveTarget,
    String,
>)
    ensures
        ({
            let owed = recovery_target(
                request.keys@.map_values(|k: TableKey| k@),
                read_text(request.kind),
                read_id(request.native_id),
                read_id(request.parent_tab_id),
                read_id(request.parent_window_id),
                read_text(request.workspace),
            );
            match result {
                Ok(target) => owed == Ok::<TargetView, Seq<char>>(target@),
                Err(reason) => owed == Err::<TargetView, Seq<char>>(reason@),
            }
        }),
{
    let kind = match request.kind {
        Ok(kind) => kind,
        Err(reason) => {
            return Err(reason);
        },
    };
    let pane = same_text(kind.as_str(), "pane");
    let tab = same_text(kind.as_str(), "tab");
    if !pane && !tab && !same_text(kind.as_str(), "window") {
        return Err(
            "invalid dmux recovery node kind ".to_owned().concat(
                debug_text(kind.as_str()).as_str(),
            ).concat("; expected pane, tab, or window"),
        );
    }
    let allowed = recovery_field_names(kind.as_str());
    let behind_field = " for dmux recovery ".to_owned().concat(kind.as_str()).concat(" request");
    let words = SchemaWords {
        before_type: "dmux recovery request keys must be strings, got ",
        behind_type: "",
        before_field: "unknown field ",
        behind_field: behind_field.as_str(),
    };
    match check_keys(&request.keys, &allowed, words) {
        Ok(()) => {},
        Err(reason) => {
            return Err(reason);
        },
    }
    let native_id: usize = match request.native_id {
        Ok(id) => id,
        Err(reason) => {
            return Err(reason);
        },
    };
    if pane {
        match (request.parent_tab_id, request.parent_window_id) {
            (Err(reason), _) => Err(reason),
            (Ok(_), Err(reason)) => Err(reason),
            (Ok(parent_tab_id), Ok(parent_window_id)) => Ok(
                RecoveryRemoveTarget::Pane { pane_id: native_id, parent_tab_id, parent_window_id },
            ),
        }
    } else if tab {
        match request.parent_window_id {
            Err(reason) => Err(reason),
            Ok(parent_window_id) => Ok(
                RecoveryRemoveTarget::Tab { tab_id: native_id, parent_window_id },
            ),
        }
    } else {
        match request.workspace {
            Err(reason) => Err(reason),
            Ok(workspace) => {
                if workspace.as_str().is_empty() {
                    assert(workspace@.len() == 0);
                    Err("dmux recovery window workspace must not be empty".to_owned())
                } else {
                    Ok(RecoveryRemoveTarget::Window { window_id: native_id, workspace })
                }
            },
        }
    }
}

/// Removes one exact node where the recovery primitives are enabled. Where they
/// are not, says so and touches nothing.
pub fn dmux_recovery_remove_node(
    mux: &mut Mux,
    recovery_primitives: bool,
    target: RecoveryRemoveTarget,
) -> (outcome: RecoveryRemoveOutcome)
    requires
        old(mux).wf(),
    ensures
        final(mux).wf(),
        recovery_primitives ==> final(mux)@ == removal_state(old(mux)@, target@) && outcome_is(
            outcome@,
            old(mux)@,
            target@,
            final(mux)@,
        ),
        !recovery_primitives ==> final(mux)@ == old(mux)@ && outcome@ == (OutcomeView {
            status: RecoveryRemoveStatus::Disabled,
            ..blank_outcome(target@.kind(), target@.native_id())
        }),
{
    if recovery_primitives {
        mux.remove_recovery_node_exact(target)
    } else {
        let mut outcome = RecoveryRemoveOutcome::new(target.kind(), target.native_id());
        outcome.status = RecoveryRemoveStatus::Disabled;
        outcome
    }
}

/// Refuses the recovery spool and manifests where the recovery primitives are
/// not enabled.
pub fn require_recovery_gate(recovery_primitives: bool) -> (result: Result<(), &'static str>)
    ensures
        match result {
            Ok(()) => recovery_primitives,
            Err(reason) => !recovery_primitives && reason@
                == "dmux_recovery_spool_disabled: dmux_recovery_primitives is not enabled"@,
        },
{
    if recovery_primitives {
        Ok(())
    } else {
        Err("dmux_recovery_spool_disabled: dmux_recovery_primitives is not enabled")
    }
}

} // verus!
