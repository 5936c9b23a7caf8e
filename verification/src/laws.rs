//! What holds of the repository whatever is done to it: the laws that relate
//! its operations, proved over the mathematical model that the contracts of
//! the operations speak of.

use vstd::prelude::*;

use crate::models::{FileRecordView, Patch, Timestamp};
use crate::store::{attach, detach, detach_blocked, ids_under, without, Change, StoreView, WriteOpView};
use crate::text::{lemma_text_order, text_before};

verus! {

/// Taking an id out of a list leaves the other ids, and a list without
/// repeats stays without repeats.
proof fn lemma_without(ids: Seq<Seq<char>>, id: Seq<char>)
    ensures
        forall|x: Seq<char>| #[trigger] without(ids, id).contains(x) <==> ids.contains(x) && x != id,
        ids.no_duplicates() ==> without(ids, id).no_duplicates(),
    decreases ids.len(),
{
    reveal(Seq::filter);
    if ids.len() > 0 {
        let rest = ids.drop_last();
        let last = ids.last();
        lemma_without(rest, id);
        let kept = without(rest, id);
        let out = without(ids, id);
        assert forall|x: Seq<char>| #[trigger] out.contains(x) <==> ids.contains(x) && x != id by {
            if out.contains(x) {
                let j = choose|j: int| 0 <= j < out.len() && out[j] == x;
                if last != id && j == out.len() - 1 {
                    assert(ids[ids.len() - 1] == x);
                } else {
                    assert(kept[j] == x);
                    assert(kept.contains(x));
                    let k = choose|k: int| 0 <= k < rest.len() && rest[k] == x;
                    assert(ids[k] == x);
                }
            }
            if ids.contains(x) && x != id {
                let k = choose|k: int| 0 <= k < ids.len() && ids[k] == x;
                if k == ids.len() - 1 {
                    assert(out[out.len() - 1] == x);
                } else {
                    assert(rest[k] == x);
                    assert(rest.contains(x));
                    assert(kept.contains(x));
                    let j = choose|j: int| 0 <= j < kept.len() && kept[j] == x;
                    assert(out[j] == x);
                }
            }
        }
        if ids.no_duplicates() {
            assert(rest.no_duplicates());
            if last != id {
                assert(!kept.contains(last)) by {
                    if kept.contains(last) {
                        let k = choose|k: int| 0 <= k < rest.len() && rest[k] == last;
                        assert(ids[k] == ids[ids.len() - 1]);
                    }
                }
                assert forall|i: int, j: int| 0 <= i < out.len() && 0 <= j < out.len() && i != j implies out[i]
                    != out[j] by {
                    if i == out.len() - 1 {
                        assert(kept[j] == out[j]);
                        assert(kept.contains(out[j]));
                    } else if j == out.len() - 1 {
                        assert(kept[i] == out[i]);
                        assert(kept.contains(out[i]));
                    } else {
                        assert(kept[i] == out[i] && kept[j] == out[j]);
                    }
                }
            }
        }
    }
}

/// A subject index agrees with a filing relation: under each key stands a
/// readable list, not empty and without repeats, of exactly the ids that the
/// relation files under that key, and each subject that the relation files
/// an id under has a key.
spec fn index_matches(
    subjects: Map<Seq<char>, Option<Seq<Seq<char>>>>,
    filed: spec_fn(Seq<char>, Seq<char>) -> bool,
) -> bool {
    &&& forall|s: Seq<char>| #[trigger]
        subjects.contains_key(s) ==> {
            &&& subjects[s] is Some
            &&& subjects[s]->0.len() > 0
            &&& subjects[s]->0.no_duplicates()
            &&& forall|id: Seq<char>| #[trigger] subjects[s]->0.contains(id) <==> filed(id, s)
        }
    &&& forall|id: Seq<char>, s: Seq<char>| #[trigger] filed(id, s) ==> subjects.contains_key(s)
}

/// The subject index of a store is exact when it agrees with the store's own
/// filing relation.
proof fn lemma_exact_is_matching(store: StoreView)
    ensures
        store.subjects_exact() <==> index_matches(store.subjects, |id: Seq<char>, s: Seq<char>| store.filed(id, s)),
{
    let filed = |id: Seq<char>, s: Seq<char>| store.filed(id, s);
    if store.subjects_exact() {
        assert forall|s: Seq<char>| #[trigger] store.subjects.contains_key(s) implies {
            &&& store.subjects[s] is Some
            &&& store.subjects[s]->0.len() > 0
            &&& store.subjects[s]->0.no_duplicates()
            &&& forall|id: Seq<char>| #[trigger] store.subjects[s]->0.contains(id) <==> filed(id, s)
        } by {}
        assert forall|id: Seq<char>, s: Seq<char>| #[trigger] filed(id, s) implies store.subjects.contains_key(s) by {
            assert(store.filed(id, s));
        }
    }
    if index_matches(store.subjects, filed) {
        assert forall|s: Seq<char>| #[trigger] store.subjects.contains_key(s) implies {
            &&& store.subjects[s] is Some
            &&& store.subjects[s]->0.len() > 0
            &&& store.subjects[s]->0.no_duplicates()
            &&& forall|id: Seq<char>| #[trigger] store.subjects[s]->0.contains(id) <==> store.filed(id, s)
        } by {
            assert forall|id: Seq<char>| #[trigger] store.subjects[s]->0.contains(id) <==> store.filed(id, s) by {
                assert(filed(id, s) == store.filed(id, s));
            }
        }
        assert forall|id: Seq<char>, s: Seq<char>| #[trigger] store.filed(id, s) implies store.subjects.contains_key(
            s,
        ) by {
            assert(filed(id, s));
        }
    }
}

/// An index that agrees with one filing relation agrees with every relation
/// that files the same.
proof fn lemma_matching_is_pointwise(
    subjects: Map<Seq<char>, Option<Seq<Seq<char>>>>,
    a: spec_fn(Seq<char>, Seq<char>) -> bool,
    b: spec_fn(Seq<char>, Seq<char>) -> bool,
)
    requires
        index_matches(subjects, a),
        forall|id: Seq<char>, s: Seq<char>| #[trigger] a(id, s) == #[trigger] b(id, s),
    ensures
        index_matches(subjects, b),
{
    assert forall|s: Seq<char>| #[trigger] subjects.contains_key(s) implies {
        &&& subjects[s] is Some
        &&& subjects[s]->0.len() > 0
        &&& subjects[s]->0.no_duplicates()
        &&& forall|id: Seq<char>| #[trigger] subjects[s]->0.contains(id) <==> b(id, s)
    } by {
        assert forall|id: Seq<char>| #[trigger] subjects[s]->0.contains(id) <==> b(id, s) by {
            assert(a(id, s) == b(id, s));
        }
    }
    assert forall|id: Seq<char>, s: Seq<char>| #[trigger] b(id, s) implies subjects.contains_key(s) by {
        assert(a(id, s));
    }
}

/// Taking an id out from under its subject gives the index of the relation
/// that files everything as before but this id.
proof fn lemma_detach_matches(
    subjects: Map<Seq<char>, Option<Seq<Seq<char>>>>,
    filed: spec_fn(Seq<char>, Seq<char>) -> bool,
    subject: Option<Seq<char>>,
    id: Seq<char>,
)
    requires
        index_matches(subjects, filed),
        forall|s: Seq<char>| #[trigger] filed(id, s) <==> subject == Some(s),
    ensures
        !detach_blocked(subjects, subject),
        index_matches(detach(subjects, subject, id), |x: Seq<char>, s: Seq<char>| filed(x, s) && x != id),
{
    let after = detach(subjects, subject, id);
    let rest = |x: Seq<char>, s: Seq<char>| filed(x, s) && x != id;
    match subject {
        Some(s0) => {
            assert(filed(id, s0));
            assert(subjects.contains_key(s0));
            let ids = subjects[s0]->0;
            lemma_without(ids, id);
            assert forall|s: Seq<char>| #[trigger] after.contains_key(s) implies {
                &&& after[s] is Some
                &&& after[s]->0.len() > 0
                &&& after[s]->0.no_duplicates()
                &&& forall|x: Seq<char>| #[trigger] after[s]->0.contains(x) <==> rest(x, s)
            } by {
                assert(subjects.contains_key(s));
                if s == s0 {
                    assert forall|x: Seq<char>| #[trigger] after[s]->0.contains(x) <==> rest(x, s) by {
                        assert(ids.contains(x) <==> filed(x, s));
                    }
                } else {
                    assert forall|x: Seq<char>| #[trigger] after[s]->0.contains(x) <==> rest(x, s) by {
                        assert(subjects[s]->0.contains(x) <==> filed(x, s));
                    }
                }
            }
            assert forall|x: Seq<char>, s: Seq<char>| #[trigger] rest(x, s) implies after.contains_key(s) by {
                assert(filed(x, s));
                if s == s0 {
                    assert(ids.contains(x));
                    assert(without(ids, id).contains(x));
                }
            }
        },
        None => {
            assert forall|s: Seq<char>| #[trigger] after.contains_key(s) implies {
                &&& after[s] is Some
                &&& after[s]->0.len() > 0
                &&& after[s]->0.no_duplicates()
                &&& forall|x: Seq<char>| #[trigger] after[s]->0.contains(x) <==> rest(x, s)
            } by {
                assert forall|x: Seq<char>| #[trigger] after[s]->0.contains(x) <==> rest(x, s) by {
                    assert(subjects[s]->0.contains(x) <==> filed(x, s));
                }
            }
            assert forall|x: Seq<char>, s: Seq<char>| #[trigger] rest(x, s) implies after.contains_key(s) by {
                assert(filed(x, s));
            }
        },
    }
}

/// Filing an id that is filed nowhere else gives the index of the relation
/// that files this id under the subject and everything else as before.
proof fn lemma_attach_matches(
    subjects: Map<Seq<char>, Option<Seq<Seq<char>>>>,
    filed: spec_fn(Seq<char>, Seq<char>) -> bool,
    subject: Option<Seq<char>>,
    id: Seq<char>,
)
    requires
        index_matches(subjects, filed),
        forall|s: Seq<char>| #[trigger] filed(id, s) ==> subject == Some(s),
    ensures
        index_matches(
            attach(subjects, subject, id),
            |x: Seq<char>, s: Seq<char>|
                if x == id {
                    subject == Some(s)
                } else {
                    filed(x, s)
                },
        ),
{
    let after = attach(subjects, subject, id);
    let now_filed = |x: Seq<char>, s: Seq<char>|
        if x == id {
            subject == Some(s)
        } else {
            filed(x, s)
        };
    match subject {
        Some(s0) => {
            let ids = ids_under(subjects, s0);
            assert forall|x: Seq<char>| #[trigger] ids.contains(x) <==> filed(x, s0) by {
                if subjects.contains_key(s0) {
                    assert(subjects[s0]->0.contains(x) <==> filed(x, s0));
                } else {
                    if filed(x, s0) {
                        assert(subjects.contains_key(s0));
                    }
                }
            }
            assert forall|s: Seq<char>| #[trigger] after.contains_key(s) implies {
                &&& after[s] is Some
                &&& after[s]->0.len() > 0
                &&& after[s]->0.no_duplicates()
                &&& forall|x: Seq<char>| #[trigger] after[s]->0.contains(x) <==> now_filed(x, s)
            } by {
                if s == s0 {
                    if ids.contains(id) {
                        assert(subjects.contains_key(s0));
                        assert forall|x: Seq<char>| #[trigger] after[s]->0.contains(x) <==> now_filed(x, s) by {
                            assert(ids.contains(x) <==> filed(x, s0));
                        }
                    } else {
                        let more = ids.push(id);
                        assert(after[s]->0 == more);
                        assert(more[more.len() - 1] == id);
                        assert forall|x: Seq<char>| #[trigger] more.contains(x) <==> now_filed(x, s) by {
                            assert(ids.contains(x) <==> filed(x, s0));
                            if more.contains(x) {
                                let j = choose|j: int| 0 <= j < more.len() && more[j] == x;
                                if j < ids.len() {
                                    assert(ids[j] == x);
                                }
                            }
                            if ids.contains(x) {
                                let j = choose|j: int| 0 <= j < ids.len() && ids[j] == x;
                                assert(more[j] == x);
                            }
                        }
                        if subjects.contains_key(s0) {
                            assert(ids.no_duplicates());
                        }
                        assert forall|i: int, j: int| 0 <= i < more.len() && 0 <= j < more.len() && i != j implies more[i]
                            != more[j] by {
                            if i < ids.len() {
                                assert(ids[i] == more[i]);
                                assert(ids.contains(more[i]));
                            }
                            if j < ids.len() {
                                assert(ids[j] == more[j]);
                                assert(ids.contains(more[j]));
                            }
                        }
                    }
                } else {
                    assert(subjects.contains_key(s));
                    assert forall|x: Seq<char>| #[trigger] after[s]->0.contains(x) <==> now_filed(x, s) by {
                        assert(subjects[s]->0.contains(x) <==> filed(x, s));
                        if filed(id, s) {
                            assert(subject == Some(s));
                        }
                    }
                }
            }
            assert forall|x: Seq<char>, s: Seq<char>| #[trigger] now_filed(x, s) implies after.contains_key(s) by {
                if x != id {
                    assert(filed(x, s));
                    assert(subjects.contains_key(s));
                } else {
                    if ids.contains(id) {
                        assert(filed(id, s0));
                    }
                }
            }
        },
        None => {
            assert forall|s: Seq<char>| #[trigger] after.contains_key(s) implies {
                &&& after[s] is Some
                &&& after[s]->0.len() > 0
                &&& after[s]->0.no_duplicates()
                &&& forall|x: Seq<char>| #[trigger] after[s]->0.contains(x) <==> now_filed(x, s)
            } by {
                assert forall|x: Seq<char>| #[trigger] after[s]->0.contains(x) <==> now_filed(x, s) by {
                    assert(subjects[s]->0.contains(x) <==> filed(x, s));
                    if filed(id, s) {
                        assert(subject == Some(s));
                    }
                }
            }
            assert forall|x: Seq<char>, s: Seq<char>| #[trigger] now_filed(x, s) implies after.contains_key(s) by {
                assert(filed(x, s));
            }
        },
    }
}

/// The empty store is consistent.
pub proof fn lemma_empty_is_consistent()
    ensures
        StoreView::empty().consistent(),
{
}

/// A put keeps the subject index exact, whatever record it writes over and
/// whatever the permalink index holds: afterwards each list of the subject
/// index holds exactly the ids of its subject's records, each once, and no
/// list is empty.
pub proof fn lemma_put_keeps_subject_index(store: StoreView, f: FileRecordView)
    requires
        store.subjects_exact(),
    ensures
        !store.put_blocked(f),
        store.put(f).subjects_exact(),
{
    let after = store.put(f);
    let filed = |id: Seq<char>, s: Seq<char>| store.filed(id, s);
    lemma_exact_is_matching(store);
    let now_filed = |x: Seq<char>, s: Seq<char>|
        if x == f.id {
            f.subject_id == Some(s)
        } else {
            filed(x, s)
        };
    if store.leaves_subject(f) {
        let r = store.files[f.id]->0;
        assert forall|s: Seq<char>| #[trigger] filed(f.id, s) <==> r.subject_id == Some(s) by {
            assert(filed(f.id, s) == store.filed(f.id, s));
        }
        lemma_detach_matches(store.subjects, filed, r.subject_id, f.id);
        let rest = |x: Seq<char>, s: Seq<char>| filed(x, s) && x != f.id;
        let between = detach(store.subjects, r.subject_id, f.id);
        lemma_attach_matches(between, rest, f.subject_id, f.id);
        let moved = |x: Seq<char>, s: Seq<char>|
            if x == f.id {
                f.subject_id == Some(s)
            } else {
                rest(x, s)
            };
        assert forall|x: Seq<char>, s: Seq<char>| #[trigger] moved(x, s) == #[trigger] after.filed(x, s) by {
            assert(filed(x, s) == store.filed(x, s));
        }
        lemma_matching_is_pointwise(after.subjects, moved, |x: Seq<char>, s: Seq<char>| after.filed(x, s));
    } else {
        assert forall|s: Seq<char>| #[trigger] filed(f.id, s) implies f.subject_id == Some(s) by {
            assert(store.filed(f.id, s));
        }
        lemma_attach_matches(store.subjects, filed, f.subject_id, f.id);
        assert forall|id: Seq<char>, s: Seq<char>| #[trigger] now_filed(id, s) == #[trigger] after.filed(id, s) by {
            if id != f.id {
                assert(filed(id, s) == store.filed(id, s));
            }
        }
        lemma_matching_is_pointwise(after.subjects, now_filed, |id: Seq<char>, s: Seq<char>| after.filed(id, s));
    }
    lemma_exact_is_matching(after);
}

/// A put keeps the permalink index exact unless another record holds its
/// permalink, whatever the subject index holds: afterwards the index has
/// one entry for each live record's permalink and no other. That holds also
/// where the put writes over a record under another permalink.
pub proof fn lemma_put_keeps_permalink_index(store: StoreView, f: FileRecordView)
    requires
        store.permalinks_exact(),
        store.put_fits(f),
    ensures
        store.put(f).permalinks_exact(),
{
    let after = store.put(f);
    assert forall|id: Seq<char>| #[trigger] after.live(id) implies after.permalinks.contains_key(
        after.files[id]->0.permalink,
    ) && after.permalinks[after.files[id]->0.permalink] == id by {
        if id != f.id {
            assert(store.live(id));
            if store.live(f.id) {
                assert(store.permalinks[store.files[f.id]->0.permalink] == f.id);
            }
        }
    }
    assert forall|p: Seq<char>| #[trigger] after.permalinks.contains_key(p) implies after.live(
        after.permalinks[p],
    ) && after.files[after.permalinks[p]]->0.permalink == p by {
        if p != f.permalink {
            assert(store.permalinks.contains_key(p));
            assert(store.live(store.permalinks[p]));
        }
    }
}

/// A put keeps both indexes exact unless another record holds its
/// permalink, also where it writes over a record under another permalink
/// or of another subject; and it never has to read an entry that cannot be
/// read.
pub proof fn lemma_put_keeps_indexes(store: StoreView, f: FileRecordView)
    requires
        store.consistent(),
        store.put_fits(f),
    ensures
        !store.put_blocked(f),
        store.put(f).consistent(),
{
    lemma_put_keeps_subject_index(store, f);
    lemma_put_keeps_permalink_index(store, f);
}

/// A put of a permalink that another record holds breaks the permalink
/// index: the condition under which a put keeps the indexes exact leaves
/// out no put that would keep them.
pub proof fn lemma_put_must_fit(store: StoreView, f: FileRecordView)
    requires
        store.consistent(),
        !store.put_fits(f),
    ensures
        !store.put(f).permalinks_exact(),
{
    let after = store.put(f);
    let other = store.permalinks[f.permalink];
    assert(store.live(other));
    assert(after.live(other));
    assert(after.permalinks[after.files[other]->0.permalink] != other);
}

/// An update that does not fit breaks the permalink index.
pub proof fn lemma_update_must_fit(store: StoreView, id: Seq<char>, change: Change, now: Timestamp)
    requires
        store.consistent(),
        !store.update_fits(id, change),
    ensures
        !store.update(id, change, now).consistent(),
{
    let after = store.update(id, change, now);
    let p = change.permalink->0;
    let other = store.permalinks[p];
    assert(store.live(other));
    assert(store.live(id));
    assert(other != id);
    assert(after.live(other));
    assert(after.permalinks[after.files[other]->0.permalink] != other);
}

/// A delete keeps the subject index exact, whatever the permalink index
/// holds: afterwards the id is in no list, a subject left without a record
/// is no key any more, and every other list is as before.
pub proof fn lemma_delete_keeps_subject_index(store: StoreView, id: Seq<char>)
    requires
        store.subjects_exact(),
    ensures
        store.live(id) ==> !detach_blocked(store.subjects, store.files[id]->0.subject_id),
        store.delete(id).subjects_exact(),
        forall|s: Seq<char>| !(#[trigger] ids_under(store.delete(id).subjects, s).contains(id)),
        forall|s: Seq<char>|
            store.live(id) && store.files[id]->0.subject_id != Some(s) ==> #[trigger] store.delete(
                id,
            ).subjects.contains_key(s) == store.subjects.contains_key(s) && (store.subjects.contains_key(s)
                ==> store.delete(id).subjects[s] == store.subjects[s]),
{
    let after = store.delete(id);
    if store.live(id) {
        let r = store.files[id]->0;
        let filed = |x: Seq<char>, s: Seq<char>| store.filed(x, s);
        lemma_exact_is_matching(store);
        assert forall|s: Seq<char>| #[trigger] filed(id, s) <==> r.subject_id == Some(s) by {
            assert(filed(id, s) == store.filed(id, s));
        }
        lemma_detach_matches(store.subjects, filed, r.subject_id, id);
        let rest = |x: Seq<char>, s: Seq<char>| filed(x, s) && x != id;
        assert forall|x: Seq<char>, s: Seq<char>| #[trigger] rest(x, s) == #[trigger] after.filed(x, s) by {
            assert(filed(x, s) == store.filed(x, s));
        }
        lemma_matching_is_pointwise(after.subjects, rest, |x: Seq<char>, s: Seq<char>| after.filed(x, s));
        lemma_exact_is_matching(after);
    }
    assert forall|s: Seq<char>| !(#[trigger] ids_under(after.subjects, s).contains(id)) by {
        if after.subjects.contains_key(s) {
            assert(after.subjects[s]->0.contains(id) <==> after.filed(id, s));
        }
    }
}

/// A delete keeps the permalink index exact, whatever the subject index
/// holds.
pub proof fn lemma_delete_keeps_permalink_index(store: StoreView, id: Seq<char>)
    requires
        store.permalinks_exact(),
    ensures
        store.delete(id).permalinks_exact(),
{
    let after = store.delete(id);
    if store.live(id) {
        assert forall|x: Seq<char>| #[trigger] after.live(x) implies after.permalinks.contains_key(
            after.files[x]->0.permalink,
        ) && after.permalinks[after.files[x]->0.permalink] == x by {
            assert(store.live(x));
            assert(store.live(id));
        }
        assert forall|p: Seq<char>| #[trigger] after.permalinks.contains_key(p) implies after.live(
            after.permalinks[p],
        ) && after.files[after.permalinks[p]]->0.permalink == p by {
            assert(store.permalinks.contains_key(p));
        }
    }
}

/// A delete keeps both indexes exact, and never has to read an entry that
/// cannot be read.
pub proof fn lemma_delete_keeps_indexes(store: StoreView, id: Seq<char>)
    requires
        store.consistent(),
    ensures
        !store.delete_blocked(id),
        store.delete(id).consistent(),
{
    lemma_delete_keeps_subject_index(store, id);
    lemma_delete_keeps_permalink_index(store, id);
    if !store.live(id) {
        assert(!store.files.contains_key(id));
    }
}

/// An update keeps the subject index exact, whatever the patch and
/// whatever the permalink index holds: afterwards each list holds exactly
/// the ids of its subject's records, each once, and no list is empty.
pub proof fn lemma_update_keeps_subject_index(store: StoreView, id: Seq<char>, change: Change, now: Timestamp)
    requires
        store.subjects_exact(),
    ensures
        store.live(id) && StoreView::moves_subject(store.files[id]->0, change) ==> !detach_blocked(
            store.subjects,
            store.files[id]->0.subject_id,
        ),
        store.update(id, change, now).subjects_exact(),
{
    let after = store.update(id, change, now);
    if store.live(id) {
        let r = store.files[id]->0;
        let changed = change.applied(r, now);
        let filed = |x: Seq<char>, s: Seq<char>| store.filed(x, s);
        lemma_exact_is_matching(store);
        assert forall|s: Seq<char>| #[trigger] filed(id, s) <==> r.subject_id == Some(s) by {
            assert(filed(id, s) == store.filed(id, s));
        }
        if StoreView::moves_subject(r, change) {
            lemma_detach_matches(store.subjects, filed, r.subject_id, id);
            let rest = |x: Seq<char>, s: Seq<char>| filed(x, s) && x != id;
            let between = detach(store.subjects, r.subject_id, id);
            lemma_attach_matches(between, rest, change.subject_id->0, id);
            let now_filed = |x: Seq<char>, s: Seq<char>|
                if x == id {
                    change.subject_id->0 == Some(s)
                } else {
                    rest(x, s)
                };
            assert forall|x: Seq<char>, s: Seq<char>| #[trigger] now_filed(x, s) == #[trigger] after.filed(x, s) by {
                assert(filed(x, s) == store.filed(x, s));
            }
            lemma_matching_is_pointwise(after.subjects, now_filed, |x: Seq<char>, s: Seq<char>| after.filed(x, s));
        } else {
            assert(changed.subject_id == r.subject_id);
            assert forall|x: Seq<char>, s: Seq<char>| #[trigger] filed(x, s) == #[trigger] after.filed(x, s) by {
                assert(filed(x, s) == store.filed(x, s));
            }
            lemma_matching_is_pointwise(after.subjects, filed, |x: Seq<char>, s: Seq<char>| after.filed(x, s));
        }
        lemma_exact_is_matching(after);
    }
}

/// An update that fits keeps the permalink index exact, whatever the
/// subject index holds.
pub proof fn lemma_update_keeps_permalink_index(store: StoreView, id: Seq<char>, change: Change, now: Timestamp)
    requires
        store.permalinks_exact(),
        store.update_fits(id, change),
    ensures
        store.update(id, change, now).permalinks_exact(),
{
    let after = store.update(id, change, now);
    if store.live(id) {
        assert forall|x: Seq<char>| #[trigger] after.live(x) implies after.permalinks.contains_key(
            after.files[x]->0.permalink,
        ) && after.permalinks[after.files[x]->0.permalink] == x by {
            assert(store.live(x));
            assert(store.live(id));
        }
        assert forall|p: Seq<char>| #[trigger] after.permalinks.contains_key(p) implies after.live(
            after.permalinks[p],
        ) && after.files[after.permalinks[p]]->0.permalink == p by {
            if store.permalinks.contains_key(p) {
                assert(store.live(store.permalinks[p]));
            }
        }
    }
}

/// An update that fits keeps both indexes exact, and never has to read an
/// entry that cannot be read.
pub proof fn lemma_update_keeps_indexes(store: StoreView, id: Seq<char>, change: Change, now: Timestamp)
    requires
        store.consistent(),
        store.update_fits(id, change),
    ensures
        !store.update_blocked(id, change),
        store.update(id, change, now).consistent(),
{
    lemma_update_keeps_subject_index(store, id, change, now);
    lemma_update_keeps_permalink_index(store, id, change, now);
    if !store.live(id) {
        assert(!store.files.contains_key(id));
    }
}

/// Whatever operation is applied: if it fits, both indexes are exact
/// afterwards, as they were before.
pub proof fn lemma_apply_keeps_indexes(store: StoreView, op: WriteOpView)
    requires
        store.consistent(),
        store.fits(op),
    ensures
        !store.apply_blocked(op),
        store.apply(op).consistent(),
{
    match op {
        WriteOpView::CreateFile(f) => lemma_put_keeps_indexes(store, f),
        WriteOpView::DeleteFile { id } => lemma_delete_keeps_indexes(store, id),
        WriteOpView::UpdateFile { id, change, now } => lemma_update_keeps_indexes(store, id, change, now),
    }
}

/// Whatever operation is applied: if it fits, the permalink index is exact
/// afterwards, as it was before.
pub proof fn lemma_apply_keeps_permalink_index(store: StoreView, op: WriteOpView)
    requires
        store.permalinks_exact(),
        store.fits(op),
    ensures
        store.apply(op).permalinks_exact(),
{
    match op {
        WriteOpView::CreateFile(f) => lemma_put_keeps_permalink_index(store, f),
        WriteOpView::DeleteFile { id } => lemma_delete_keeps_permalink_index(store, id),
        WriteOpView::UpdateFile { id, change, now } => lemma_update_keeps_permalink_index(store, id, change, now),
    }
}

/// Whatever operation is applied, the subject index is exact afterwards, as
/// it was before.
pub proof fn lemma_apply_keeps_subject_index(store: StoreView, op: WriteOpView)
    requires
        store.subjects_exact(),
    ensures
        store.apply(op).subjects_exact(),
{
    match op {
        WriteOpView::CreateFile(f) => lemma_put_keeps_subject_index(store, f),
        WriteOpView::DeleteFile { id } => lemma_delete_keeps_subject_index(store, id),
        WriteOpView::UpdateFile { id, change, now } => lemma_update_keeps_subject_index(store, id, change, now),
    }
}

/// The store after a history of operations, applied to the empty store in
/// order.
pub open spec fn replay(ops: Seq<WriteOpView>) -> StoreView
    decreases ops.len(),
{
    if ops.len() == 0 {
        StoreView::empty()
    } else {
        replay(ops.drop_last()).apply(ops.last())
    }
}

/// Every operation of a history fits the store that the operations before
/// it have made.
pub open spec fn all_fit(ops: Seq<WriteOpView>) -> bool {
    forall|n: int| 0 <= n < ops.len() ==> (#[trigger] replay(ops.take(n))).fits(ops[n])
}

/// For every history of puts, updates and deletes that fit, after each
/// operation both indexes are exact.
pub proof fn lemma_history_keeps_indexes(ops: Seq<WriteOpView>, n: int)
    requires
        all_fit(ops),
        0 <= n <= ops.len(),
    ensures
        replay(ops.take(n)).consistent(),
    decreases n,
{
    if n == 0 {
        assert(ops.take(0) =~= Seq::empty());
    } else {
        lemma_history_keeps_indexes(ops, n - 1);
        let prefix = ops.take(n);
        assert(prefix.drop_last() =~= ops.take(n - 1));
        assert(prefix.last() == ops[n - 1]);
        assert(replay(ops.take(n - 1)).fits(ops[n - 1]));
        lemma_apply_keeps_indexes(replay(ops.take(n - 1)), ops[n - 1]);
    }
}

/// For every history of puts, updates and deletes whatever, after each
/// operation the subject index is exact.
pub proof fn lemma_history_keeps_subject_index(ops: Seq<WriteOpView>, n: int)
    requires
        0 <= n <= ops.len(),
    ensures
        replay(ops.take(n)).subjects_exact(),
    decreases n,
{
    if n == 0 {
        assert(ops.take(0) =~= Seq::empty());
    } else {
        lemma_history_keeps_subject_index(ops, n - 1);
        let prefix = ops.take(n);
        assert(prefix.drop_last() =~= ops.take(n - 1));
        assert(prefix.last() == ops[n - 1]);
        lemma_apply_keeps_subject_index(replay(ops.take(n - 1)), ops[n - 1]);
    }
}

/// Two stores that hold the same end up holding the same when the same
/// operation is applied to each, and the operation is refused by both or by
/// neither.
pub proof fn lemma_apply_is_a_function(a: StoreView, b: StoreView, op: WriteOpView)
    requires
        a == b,
    ensures
        a.apply(op) == b.apply(op),
        a.apply_blocked(op) == b.apply_blocked(op),
        a.apply_refused(op) == b.apply_refused(op),
{
}

/// After a put, the record is what its id holds and what its permalink
/// resolves to.
pub proof fn lemma_put_then_get(store: StoreView, f: FileRecordView)
    ensures
        store.put(f).record(f.id) == Some(f),
        store.put(f).resolve(f.permalink) == Some(f),
{
}

/// After a delete that went through, the id holds nothing, and a second
/// delete finds nothing and changes nothing.
pub proof fn lemma_delete_twice(store: StoreView, id: Seq<char>)
    requires
        !store.delete_blocked(id),
    ensures
        store.delete(id).record(id) is None,
        !store.delete(id).holds(id),
        !store.delete(id).delete_blocked(id),
        store.delete(id).delete(id) == store.delete(id),
{
}

/// A patch that is absent leaves a field as it is, a null patch clears it,
/// and a patch with a value sets it to that value.
pub proof fn lemma_patch_applies<T>(current: Option<T>, v: T)
    ensures
        Patch::<T>::Absent.apply(current) == current,
        Patch::<T>::Null.apply(current) == None::<T>,
        Patch::Value(v).apply(current) == Some(v),
        Patch::<T>::of_nested(None).apply(current) == current,
        Patch::<T>::of_nested(Some(None)).apply(current) == None::<T>,
        Patch::of_nested(Some(Some(v))).apply(current) == Some(v),
{
}

/// An update treats each optional field of a record by its own patch, and
/// touches nothing else but the permalink, where one is given, and the time
/// of the update.
pub proof fn lemma_update_patches_each_field(r: FileRecordView, change: Change, now: Timestamp)
    ensures
        change.applied(r, now).alt == Patch::of_nested(change.alt).apply(r.alt),
        change.applied(r, now).description == Patch::of_nested(change.description).apply(r.description),
        change.applied(r, now).metadata == Patch::of_nested(change.metadata).apply(r.metadata),
        change.applied(r, now).name == Patch::of_nested(change.name).apply(r.name),
        change.applied(r, now).subject_id == Patch::of_nested(change.subject_id).apply(r.subject_id),
        change.applied(r, now).permalink == (match change.permalink {
            Some(p) => p,
            None => r.permalink,
        }),
        change.applied(r, now).updated_at == now,
        change.applied(r, now).id == r.id,
        change.applied(r, now).mime_type == r.mime_type,
        change.applied(r, now).file_type == r.file_type,
        change.applied(r, now).byte_size == r.byte_size,
        change.applied(r, now).created_at == r.created_at,
{
}

/// An update that gives a record another permalink makes the old permalink
/// resolve to nothing and the new one to the record.
pub proof fn lemma_update_moves_permalink(store: StoreView, id: Seq<char>, change: Change, now: Timestamp)
    requires
        store.live(id),
        StoreView::moves_permalink(store.files[id]->0, change),
    ensures
        store.update(id, change, now).resolve(store.files[id]->0.permalink) is None,
        store.update(id, change, now).resolve(change.permalink->0) == Some(
            change.applied(store.files[id]->0, now),
        ),
{
}

/// An update that gives a record another subject takes its id out of the
/// old subject's list and puts it into the new one's: afterwards the id is
/// under the new subject, if there is one, and not under the old one.
pub proof fn lemma_update_moves_subject(store: StoreView, id: Seq<char>, change: Change, now: Timestamp)
    requires
        store.live(id),
        StoreView::moves_subject(store.files[id]->0, change),
        !store.update_blocked(id, change),
    ensures
        store.files[id]->0.subject_id matches Some(old_subject) ==> !ids_under(
            store.update(id, change, now).subjects,
            old_subject,
        ).contains(id),
        change.subject_id->0 matches Some(new_subject) ==> ids_under(
            store.update(id, change, now).subjects,
            new_subject,
        ).contains(id),
{
    let r = store.files[id]->0;
    let between = detach(store.subjects, r.subject_id, id);
    let after = store.update(id, change, now);
    match r.subject_id {
        Some(old_subject) => {
            if store.subjects.contains_key(old_subject) {
                lemma_without(store.subjects[old_subject]->0, id);
            }
            assert(!ids_under(between, old_subject).contains(id));
        },
        None => {},
    }
    match change.subject_id->0 {
        Some(new_subject) => {
            let ids = ids_under(between, new_subject);
            if !ids.contains(id) {
                assert(ids.push(id)[ids.len() as int] == id);
            }
        },
        None => {},
    }
}

/// Two ascending lists of the same ids are the same list.
proof fn lemma_ascending_lists_agree(a: Seq<Seq<char>>, b: Seq<Seq<char>>, n: int)
    requires
        forall|i: int, j: int| 0 <= i < j < a.len() ==> text_before(a[i], a[j]),
        forall|i: int, j: int| 0 <= i < j < b.len() ==> text_before(b[i], b[j]),
        forall|k: Seq<char>| #[trigger] a.contains(k) <==> b.contains(k),
        0 <= n <= a.len(),
        n <= b.len(),
    ensures
        forall|i: int| 0 <= i < n ==> a[i] == b[i],
    decreases n,
{
    if n > 0 {
        lemma_ascending_lists_agree(a, b, n - 1);
        let x = a[n - 1];
        let y = b[n - 1];
        if x != y {
            assert(a.contains(x));
            assert(b.contains(x));
            let j = choose|j: int| 0 <= j < b.len() && b[j] == x;
            assert(b.contains(y));
            assert(a.contains(y));
            let i = choose|i: int| 0 <= i < a.len() && a[i] == y;
            lemma_text_order(x, y, x);
            lemma_text_order(y, x, y);
            // x stands in b after place n - 1, and y in a after place n - 1:
            // each would come before the other
            if j < n - 1 {
                assert(a[j] == b[j]);
                lemma_text_order(a[j], x, x);
            }
            if i < n - 1 {
                assert(b[i] == a[i]);
                lemma_text_order(b[i], y, y);
            }
            assert(text_before(y, x));
            assert(text_before(x, y));
        }
    }
}

/// A store has one full listing: the records in ascending order of their
/// ids. Two reads of all files of the same store give the same list.
pub proof fn lemma_listing_is_unique(store: StoreView, a: Seq<FileRecordView>, b: Seq<FileRecordView>)
    requires
        store.is_full_listing(a),
        store.is_full_listing(b),
    ensures
        a == b,
{
    let ka = choose|keys: Seq<Seq<char>>| store.lists(keys, a);
    let kb = choose|keys: Seq<Seq<char>>| store.lists(keys, b);
    assert forall|k: Seq<char>| #[trigger] ka.contains(k) <==> kb.contains(k) by {
        assert(ka.contains(k) <==> store.files.contains_key(k));
        assert(kb.contains(k) <==> store.files.contains_key(k));
    }
    if ka.len() <= kb.len() {
        lemma_ascending_lists_agree(ka, kb, ka.len() as int);
        if ka.len() < kb.len() {
            let extra = kb[ka.len() as int];
            assert(kb.contains(extra));
            assert(ka.contains(extra));
            let i = choose|i: int| 0 <= i < ka.len() && ka[i] == extra;
            assert(kb[i] == extra);
            lemma_text_order(extra, extra, extra);
        }
    } else {
        lemma_ascending_lists_agree(kb, ka, kb.len() as int);
        let extra = ka[kb.len() as int];
        assert(ka.contains(extra));
        assert(kb.contains(extra));
        let i = choose|i: int| 0 <= i < kb.len() && kb[i] == extra;
        assert(ka[i] == extra);
        lemma_text_order(extra, extra, extra);
    }
    assert(ka =~= kb);
    assert forall|i: int| 0 <= i < a.len() implies a[i] == b[i] by {
        assert(store.files[ka[i]] == Some(a[i]));
        assert(store.files[kb[i]] == Some(b[i]));
    }
    assert(a =~= b);
}

/// Two consistent stores with the same records have the same permalink
/// index, and subject indexes with the same keys and, under each key, the
/// same ids.
pub proof fn lemma_records_determine_indexes(a: StoreView, b: StoreView)
    requires
        a.consistent(),
        b.consistent(),
        a.files == b.files,
    ensures
        a.permalinks == b.permalinks,
        a.subjects.dom() == b.subjects.dom(),
        forall|s: Seq<char>| #[trigger]
            a.subjects.contains_key(s) ==> a.subjects[s]->0.to_set() == b.subjects[s]->0.to_set(),
{
    assert forall|p: Seq<char>| a.permalinks.contains_key(p) <==> b.permalinks.contains_key(p) by {
        if a.permalinks.contains_key(p) {
            assert(b.live(a.permalinks[p]));
        }
        if b.permalinks.contains_key(p) {
            assert(a.live(b.permalinks[p]));
        }
    }
    assert forall|p: Seq<char>| a.permalinks.contains_key(p) implies a.permalinks[p] == b.permalinks[p] by {
        assert(b.live(a.permalinks[p]));
    }
    assert(a.permalinks =~= b.permalinks);
    assert forall|s: Seq<char>| a.subjects.contains_key(s) <==> b.subjects.contains_key(s) by {
        if a.subjects.contains_key(s) {
            let id = a.subjects[s]->0[0];
            assert(a.subjects[s]->0.contains(id));
            assert(a.filed(id, s));
            assert(b.filed(id, s));
        }
        if b.subjects.contains_key(s) {
            let id = b.subjects[s]->0[0];
            assert(b.subjects[s]->0.contains(id));
            assert(b.filed(id, s));
            assert(a.filed(id, s));
        }
    }
    assert(a.subjects.dom() =~= b.subjects.dom());
    assert forall|s: Seq<char>| #[trigger] a.subjects.contains_key(s) implies a.subjects[s]->0.to_set()
        == b.subjects[s]->0.to_set() by {
        assert(b.subjects.contains_key(s));
        assert forall|id: Seq<char>| a.subjects[s]->0.contains(id) <==> b.subjects[s]->0.contains(id) by {
            assert(a.filed(id, s) == b.filed(id, s));
        }
        assert(a.subjects[s]->0.to_set() =~= b.subjects[s]->0.to_set());
    }
}

/// Putting the first `n` records of a full listing of a consistent store
/// into the empty store gives a consistent store that holds exactly those
/// records.
proof fn lemma_restore_prefix(store: StoreView, keys: Seq<Seq<char>>, records: Seq<FileRecordView>, n: int)
    requires
        store.consistent(),
        store.lists(keys, records),
        0 <= n <= records.len(),
    ensures
        StoreView::empty().put_all(records.take(n)).consistent(),
        forall|id: Seq<char>| #[trigger]
            StoreView::empty().put_all(records.take(n)).files.contains_key(id) <==> keys.take(n).contains(id),
        forall|j: int| 0 <= j < n ==> StoreView::empty().put_all(records.take(n)).files[#[trigger] keys[j]] == Some(
            records[j],
        ),
    decreases n,
{
    let now = StoreView::empty().put_all(records.take(n));
    if n == 0 {
        assert(records.take(0) =~= Seq::empty());
        assert(keys.take(0) =~= Seq::empty());
    } else {
        lemma_restore_prefix(store, keys, records, n - 1);
        let before = StoreView::empty().put_all(records.take(n - 1));
        let f = records[n - 1];
        let short = keys.take(n - 1);
        let long = keys.take(n);
        assert(records.take(n).drop_last() =~= records.take(n - 1));
        assert(records.take(n).last() == f);
        assert(now == before.put(f));
        assert(keys.contains(keys[n - 1]));
        assert(store.files[keys[n - 1]] == Some(f));
        assert(f.id == keys[n - 1]);
        assert(!before.files.contains_key(f.id)) by {
            if short.contains(f.id) {
                let j = choose|j: int| 0 <= j < short.len() && short[j] == f.id;
                assert(keys[j] == keys[n - 1]);
            }
        }
        assert(before.put_fits(f)) by {
            if before.permalinks.contains_key(f.permalink) {
                let x = before.permalinks[f.permalink];
                assert(before.live(x));
                assert(short.contains(x));
                let j = choose|j: int| 0 <= j < short.len() && short[j] == x;
                assert(keys[j] == x);
                assert(before.files[keys[j]] == Some(records[j]));
                assert(keys.contains(keys[j]));
                assert(store.files[keys[j]] == Some(records[j]));
                assert(store.live(keys[j]));
                assert(store.live(keys[n - 1]));
                assert(store.permalinks[f.permalink] == keys[j]);
                assert(store.permalinks[f.permalink] == keys[n - 1]);
            }
        }
        lemma_put_keeps_indexes(before, f);
        assert forall|id: Seq<char>| #[trigger] now.files.contains_key(id) <==> keys.take(n).contains(id) by {
            if long.contains(id) {
                let j = choose|j: int| 0 <= j < long.len() && long[j] == id;
                if j < n - 1 {
                    assert(short[j] == id);
                }
            }
            if short.contains(id) {
                let j = choose|j: int| 0 <= j < short.len() && short[j] == id;
                assert(long[j] == id);
            }
            if id == f.id {
                assert(long[n - 1] == id);
            }
        }
        assert forall|j: int| 0 <= j < n implies now.files[#[trigger] keys[j]] == Some(records[j]) by {
            if j < n - 1 {
                assert(keys[j] != keys[n - 1]);
            }
        }
    }
}

/// A snapshot of a consistent store, restored into an empty one, gives the
/// same records and the same permalink index, and a subject index with the
/// same keys and, under each key, the same ids. The order of the ids under
/// a key is that of the snapshot.
pub proof fn lemma_snapshot_restores(store: StoreView, records: Seq<FileRecordView>)
    requires
        store.consistent(),
        store.is_full_listing(records),
    ensures
        StoreView::empty().put_all(records).consistent(),
        StoreView::empty().put_all(records).files == store.files,
        StoreView::empty().put_all(records).permalinks == store.permalinks,
        StoreView::empty().put_all(records).subjects.dom() == store.subjects.dom(),
        forall|s: Seq<char>| #[trigger]
            store.subjects.contains_key(s) ==> StoreView::empty().put_all(records).subjects[s]->0.to_set()
                == store.subjects[s]->0.to_set(),
{
    let keys = choose|keys: Seq<Seq<char>>| store.lists(keys, records);
    let back = StoreView::empty().put_all(records);
    lemma_restore_prefix(store, keys, records, records.len() as int);
    assert(records.take(records.len() as int) =~= records);
    assert(keys.take(keys.len() as int) =~= keys);
    assert forall|id: Seq<char>| back.files.contains_key(id) implies back.files[id] == store.files[id] by {
        assert(keys.contains(id));
        let j = choose|j: int| 0 <= j < keys.len() && keys[j] == id;
        assert(back.files[keys[j]] == Some(records[j]));
    }
    assert(back.files =~= store.files);
    lemma_records_determine_indexes(store, back);
}

} // verus!
