//! What holds of a store over any sequence of operations.

use crate::note::backends::state::{
    all_rendered, apply, apply_all, first_index, has_id, ids_unique, lemma_first_index,
    lemma_next_id, next_id, with_new, with_update, without, Op,
};
use crate::note::markdown::rendered_html;
use crate::note::NoteView;
use vstd::prelude::*;

verus! {

/// What a note keeps for life: its identifier and its timestamp.
pub struct NoteKey {
    pub id: nat,
    pub timestamp: Seq<char>,
}

/// The keys of `notes`, in order.
pub open spec fn keys(notes: Seq<NoteView>) -> Seq<NoteKey> {
    Seq::new(notes.len(), |i: int| NoteKey { id: notes[i].id, timestamp: notes[i].timestamp })
}

/// The keys of the notes that the operations `ops` create, in order, on a
/// store that held `notes` before.
pub open spec fn created(notes: Seq<NoteView>, ops: Seq<Op>) -> Seq<NoteKey>
    decreases ops.len(),
{
    if ops.len() == 0 {
        Seq::empty()
    } else {
        let later = created(apply(notes, ops[0]), ops.skip(1));
        match ops[0] {
            Op::Create { timestamp, content } => seq![
                NoteKey { id: next_id(notes), timestamp },
            ] + later,
            _ => later,
        }
    }
}

/// `a` is `b` with some of its items left out: the items of `a` occur in
/// `b`, in the same order.
pub open spec fn is_subsequence(a: Seq<NoteKey>, b: Seq<NoteKey>) -> bool
    decreases b.len(),
{
    if a.len() == 0 {
        true
    } else if b.len() == 0 {
        false
    } else {
        ||| a.last() == b.last() && is_subsequence(a.drop_last(), b.drop_last())
        ||| is_subsequence(a, b.drop_last())
    }
}

/// No operation of `ops` is a removal.
pub open spec fn no_delete(ops: Seq<Op>) -> bool {
    forall|i: int| 0 <= i < ops.len() ==> !(#[trigger] ops[i] is Delete)
}

/// Every sequence is a subsequence of itself.
pub proof fn lemma_subsequence_reflexive(a: Seq<NoteKey>)
    ensures
        is_subsequence(a, a),
    decreases a.len(),
{
    if a.len() > 0 {
        lemma_subsequence_reflexive(a.drop_last());
    }
}

/// A subsequence stays one when both sequences get the same item at the end.
pub proof fn lemma_subsequence_push(a: Seq<NoteKey>, b: Seq<NoteKey>, x: NoteKey)
    requires
        is_subsequence(a, b),
    ensures
        is_subsequence(a.push(x), b.push(x)),
{
    assert(a.push(x).drop_last() =~= a);
    assert(b.push(x).drop_last() =~= b);
}

/// A subsequence stays one when it loses an item.
pub proof fn lemma_subsequence_remove(a: Seq<NoteKey>, b: Seq<NoteKey>, i: int)
    requires
        is_subsequence(a, b),
        0 <= i < a.len(),
    ensures
        is_subsequence(a.remove(i), b),
    decreases b.len(),
{
    let shorter = a.remove(i);
    if shorter.len() > 0 {
        if a.last() == b.last() && is_subsequence(a.drop_last(), b.drop_last()) {
            if i < a.len() - 1 {
                lemma_subsequence_remove(a.drop_last(), b.drop_last(), i);
                assert(shorter.drop_last() =~= a.drop_last().remove(i));
            }
        } else {
            lemma_subsequence_remove(a, b.drop_last(), i);
        }
    }
}

/// A new note keeps the identifiers unique, and the notes rendered where its
/// HTML is the rendering of its content.
pub proof fn lemma_with_new_preserves(
    notes: Seq<NoteView>,
    timestamp: Seq<char>,
    content: Seq<char>,
    html: Seq<char>,
)
    ensures
        ids_unique(notes) ==> ids_unique(with_new(notes, timestamp, content, html)),
        all_rendered(notes) && html == rendered_html(content) ==> all_rendered(
            with_new(notes, timestamp, content, html),
        ),
        keys(with_new(notes, timestamp, content, html)) == keys(notes).push(
            NoteKey { id: next_id(notes), timestamp },
        ),
        next_id(with_new(notes, timestamp, content, html)) == next_id(notes) + 1,
{
    let longer = with_new(notes, timestamp, content, html);
    lemma_next_id(notes);
    assert(longer.drop_last() =~= notes);
}

/// An update keeps the keys of the notes, and the notes rendered where the
/// new HTML is the rendering of the new content.
pub proof fn lemma_with_update_preserves(
    notes: Seq<NoteView>,
    id: nat,
    content: Seq<char>,
    html: Seq<char>,
)
    ensures
        ids_unique(notes) ==> ids_unique(with_update(notes, id, content, html)),
        all_rendered(notes) && html == rendered_html(content) ==> all_rendered(
            with_update(notes, id, content, html),
        ),
        keys(with_update(notes, id, content, html)) == keys(notes),
{
    lemma_first_index(notes, id);
}

/// A removal keeps the identifiers unique and the notes rendered, and takes
/// at most one key out.
pub proof fn lemma_without_preserves(notes: Seq<NoteView>, id: nat)
    ensures
        ids_unique(notes) ==> ids_unique(without(notes, id)),
        all_rendered(notes) ==> all_rendered(without(notes, id)),
        is_subsequence(keys(without(notes, id)), keys(notes)),
{
    lemma_first_index(notes, id);
    lemma_subsequence_reflexive(keys(notes));
    match first_index(notes, id) {
        Some(i) => {
            lemma_subsequence_remove(keys(notes), keys(notes), i);
            assert(keys(notes.remove(i)) =~= keys(notes).remove(i));
        },
        None => {},
    }
}

/// Whatever is created, updated or deleted, the store holds its notes in the
/// order in which they were added, less the deleted ones, and the HTML of
/// every note is the rendering of its content.
pub proof fn lemma_order_and_rendering(notes: Seq<NoteView>, ops: Seq<Op>)
    requires
        all_rendered(notes),
    ensures
        all_rendered(apply_all(notes, ops)),
        is_subsequence(keys(apply_all(notes, ops)), keys(notes) + created(notes, ops)),
{
    lemma_subsequence_reflexive(keys(notes));
    lemma_order_and_rendering_from(notes, keys(notes), ops);
}

/// The induction behind [`lemma_order_and_rendering`], over every sequence
/// `added` of which the keys of `notes` are a subsequence.
proof fn lemma_order_and_rendering_from(notes: Seq<NoteView>, added: Seq<NoteKey>, ops: Seq<Op>)
    requires
        all_rendered(notes),
        is_subsequence(keys(notes), added),
    ensures
        all_rendered(apply_all(notes, ops)),
        is_subsequence(keys(apply_all(notes, ops)), added + created(notes, ops)),
    decreases ops.len(),
{
    if ops.len() > 0 {
        let after = apply(notes, ops[0]);
        let later = created(after, ops.skip(1));
        match ops[0] {
            Op::Create { timestamp, content } => {
                let key = NoteKey { id: next_id(notes), timestamp };
                lemma_with_new_preserves(notes, timestamp, content, rendered_html(content));
                lemma_subsequence_push(keys(notes), added, key);
                lemma_order_and_rendering_from(after, added.push(key), ops.skip(1));
                assert(added.push(key) + later =~= added + created(notes, ops));
            },
            Op::Update { id, content } => {
                lemma_with_update_preserves(notes, id, content, rendered_html(content));
                lemma_order_and_rendering_from(after, added, ops.skip(1));
            },
            Op::Delete { id } => {
                lemma_without_preserves(notes, id);
                lemma_subsequence_trans_remove(notes, id, added);
                lemma_order_and_rendering_from(after, added, ops.skip(1));
            },
        }
    }
}

/// The keys that are left after a removal are a subsequence of whatever the
/// keys before it were a subsequence of.
proof fn lemma_subsequence_trans_remove(notes: Seq<NoteView>, id: nat, added: Seq<NoteKey>)
    requires
        is_subsequence(keys(notes), added),
    ensures
        is_subsequence(keys(without(notes, id)), added),
{
    lemma_first_index(notes, id);
    match first_index(notes, id) {
        Some(i) => {
            lemma_subsequence_remove(keys(notes), added, i);
            assert(keys(notes.remove(i)) =~= keys(notes).remove(i));
        },
        None => {},
    }
}

/// Where nothing is deleted, nothing is lost: the store holds the notes it
/// held before, followed by the created ones, in order.
pub proof fn lemma_nothing_lost_without_delete(notes: Seq<NoteView>, ops: Seq<Op>)
    requires
        no_delete(ops),
    ensures
        keys(apply_all(notes, ops)) == keys(notes) + created(notes, ops),
    decreases ops.len(),
{
    if ops.len() > 0 {
        let after = apply(notes, ops[0]);
        lemma_nothing_lost_without_delete(after, ops.skip(1));
        match ops[0] {
            Op::Create { timestamp, content } => {
                assert(keys(after) + created(after, ops.skip(1)) =~= keys(notes) + created(
                    notes,
                    ops,
                ));
            },
            Op::Update { id, content } => {
                lemma_with_update_preserves(notes, id, content, rendered_html(content));
            },
            Op::Delete { id } => {},
        }
    }
}

/// Whatever is created, updated or deleted, no two notes of the store share
/// an identifier.
pub proof fn lemma_ids_stay_unique(notes: Seq<NoteView>, ops: Seq<Op>)
    requires
        ids_unique(notes),
    ensures
        ids_unique(apply_all(notes, ops)),
    decreases ops.len(),
{
    if ops.len() > 0 {
        match ops[0] {
            Op::Create { timestamp, content } => {
                lemma_with_new_preserves(notes, timestamp, content, rendered_html(content));
            },
            Op::Update { id, content } => {
                lemma_with_update_preserves(notes, id, content, rendered_html(content));
            },
            Op::Delete { id } => {
                lemma_without_preserves(notes, id);
            },
        }
        lemma_ids_stay_unique(apply(notes, ops[0]), ops.skip(1));
    }
}

/// An update or a removal that names an identifier that no note has changes
/// nothing.
pub proof fn lemma_missing_id_is_noop(notes: Seq<NoteView>, id: nat, content: Seq<char>)
    requires
        !has_id(notes, id),
    ensures
        apply(notes, Op::Update { id, content }) == notes,
        apply(notes, Op::Delete { id }) == notes,
{
    lemma_first_index(notes, id);
}

/// A removed identifier is not given out again while a note with a greater
/// one is left: whatever the store holds, the next identifier is greater
/// than every identifier that is not above all of those in the store.
pub proof fn lemma_deleted_id_not_reassigned(notes: Seq<NoteView>, id: nat)
    requires
        exists|j: int| 0 <= j < notes.len() && (#[trigger] notes[j]).id >= id,
    ensures
        next_id(notes) > id,
{
    lemma_next_id(notes);
}

/// Every operation of `ops` creates a note.
pub open spec fn all_create(ops: Seq<Op>) -> bool {
    forall|i: int| 0 <= i < ops.len() ==> #[trigger] ops[i] is Create
}

/// Notes that are created in a row get identifiers in a row, from the next
/// identifier of the store on.
pub proof fn lemma_creates_count_up(notes: Seq<NoteView>, ops: Seq<Op>)
    requires
        all_create(ops),
    ensures
        created(notes, ops).len() == ops.len(),
        forall|k: int|
            0 <= k < ops.len() ==> (#[trigger] created(notes, ops)[k]).id == next_id(notes) + k,
    decreases ops.len(),
{
    if ops.len() > 0 {
        let after = apply(notes, ops[0]);
        let rest = ops.skip(1);
        match ops[0] {
            Op::Create { timestamp, content } => {
                lemma_with_new_preserves(notes, timestamp, content, rendered_html(content));
            },
            _ => {},
        }
        lemma_creates_count_up(after, rest);
    }
}

} // verus!
