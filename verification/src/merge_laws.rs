//! What holds of every merge: no conflicting definitions survive, and the
//! merged labels do not depend on the order of the sets.

use vstd::prelude::*;
use crate::merge::add_label;
use crate::merge::add_labels;
use crate::merge::add_template;
use crate::merge::add_templates;
use crate::merge::merge_scalar;
use crate::merge::equivalent;
use crate::merge::lookup_label;
use crate::merge::merge_from;
use crate::merge::merge_set;
use crate::merge::merged;
use crate::merge::nothing_merged;
use crate::merge::well_merged;
use crate::merge::distinct_paths;
use crate::merge::MergedRepoConfigView;
use crate::order::distinct_keys;
use crate::order::has_key;
use crate::order::is_sorted;
use crate::order::lemma_sorted_distinct;
use crate::order::lemma_sorted_keys_unique;
use crate::order::lemma_sorted_seq;
use crate::sets::canonical_path;
use crate::sets::holds_path;
use crate::sets::IssueTemplateFileView;
use crate::sets::LabelSpec;
use crate::sets::LabelSpecView;
use crate::sets::SetDefinitionView;

verus! {

/// Some set of `sets` defines the label `l`.
pub open spec fn defines(sets: Seq<SetDefinitionView>, l: LabelSpecView) -> bool {
    exists|i: int, j: int|
        0 <= i < sets.len() && 0 <= j < sets[i].labels.len() && #[trigger] sets[i].labels[j] == l
}

/// Some label of `labels` has the name of `l` and is equivalent to it.
pub open spec fn represents(labels: Seq<LabelSpecView>, l: LabelSpecView) -> bool {
    exists|k: int| 0 <= k < labels.len() && equivalent(#[trigger] labels[k], l)
}

proof fn lemma_lookup(acc: Seq<LabelSpecView>, name: Seq<char>)
    ensures
        match lookup_label(acc, name) {
            Some(e) => acc.contains(e) && e.name == name,
            None => forall|i: int| 0 <= i < acc.len() ==> (#[trigger] acc[i]).name != name,
        },
    decreases acc.len(),
{
    if acc.len() > 0 {
        if acc[0].name == name {
            assert(acc[0] == acc[0]);
        } else {
            let rest = acc.drop_first();
            lemma_lookup(rest, name);
            match lookup_label(rest, name) {
                Some(e) => {
                    let k = choose|k: int| 0 <= k < rest.len() && rest[k] == e;
                    assert(acc[k + 1] == e);
                },
                None => {
                    assert forall|i: int| 0 <= i < acc.len() implies (#[trigger] acc[i]).name
                        != name by {
                        if i > 0 {
                            assert(rest[i - 1] == acc[i]);
                        }
                    }
                },
            }
        }
    }
}

proof fn lemma_add_label(acc: Seq<LabelSpecView>, l: LabelSpecView)
    requires
        distinct_keys::<LabelSpec>(acc),
        add_label(acc, l) is Ok,
    ensures
        ({
            let next = add_label(acc, l)->Ok_0;
            &&& distinct_keys::<LabelSpec>(next)
            &&& forall|x: LabelSpecView| acc.contains(x) ==> #[trigger] next.contains(x)
            &&& represents(next, l)
            &&& forall|y: LabelSpecView| #[trigger] next.contains(y) ==> acc.contains(y) || y == l
        }),
{
    let next = add_label(acc, l)->Ok_0;
    lemma_lookup(acc, l.name);
    match lookup_label(acc, l.name) {
        Some(e) => {
            let k = choose|k: int| 0 <= k < acc.len() && acc[k] == e;
            assert(equivalent(next[k], l));
        },
        None => {
            assert(next == acc.push(l));
            assert(equivalent(next[acc.len() as int], l));
            assert forall|x: LabelSpecView| acc.contains(x) implies #[trigger] next.contains(
                x,
            ) by {
                let k = choose|k: int| 0 <= k < acc.len() && acc[k] == x;
                assert(next[k] == x);
            }
            assert forall|y: LabelSpecView| #[trigger] next.contains(y) implies acc.contains(y)
                || y == l by {
                let k = choose|k: int| 0 <= k < next.len() && next[k] == y;
                if k < acc.len() {
                    assert(acc[k] == y);
                }
            }
        },
    }
}

proof fn lemma_represents_grows(acc: Seq<LabelSpecView>, next: Seq<LabelSpecView>, l: LabelSpecView)
    requires
        represents(acc, l),
        forall|x: LabelSpecView| acc.contains(x) ==> #[trigger] next.contains(x),
    ensures
        represents(next, l),
{
    let k = choose|k: int| 0 <= k < acc.len() && equivalent(#[trigger] acc[k], l);
    assert(acc.contains(acc[k]));
    assert(next.contains(acc[k]));
    let m = choose|m: int| 0 <= m < next.len() && next[m] == acc[k];
    assert(equivalent(next[m], l));
}

proof fn lemma_add_labels(acc: Seq<LabelSpecView>, labels: Seq<LabelSpecView>)
    requires
        distinct_keys::<LabelSpec>(acc),
        add_labels(acc, labels) is Ok,
    ensures
        ({
            let next = add_labels(acc, labels)->Ok_0;
            &&& distinct_keys::<LabelSpec>(next)
            &&& forall|x: LabelSpecView| acc.contains(x) ==> #[trigger] next.contains(x)
            &&& forall|j: int| 0 <= j < labels.len() ==> represents(next, #[trigger] labels[j])
            &&& forall|y: LabelSpecView| #[trigger]
                next.contains(y) ==> acc.contains(y) || labels.contains(y)
        }),
    decreases labels.len(),
{
    if labels.len() > 0 {
        lemma_add_label(acc, labels[0]);
        let mid = add_label(acc, labels[0])->Ok_0;
        let rest = labels.drop_first();
        lemma_add_labels(mid, rest);
        let next = add_labels(mid, rest)->Ok_0;
        assert forall|j: int| 0 <= j < labels.len() implies represents(
            next,
            #[trigger] labels[j],
        ) by {
            if j == 0 {
                lemma_represents_grows(mid, next, labels[0]);
            } else {
                assert(rest[j - 1] == labels[j]);
            }
        }
        assert forall|y: LabelSpecView| #[trigger] next.contains(y) implies acc.contains(y)
            || labels.contains(y) by {
            if mid.contains(y) {
                if !acc.contains(y) {
                    assert(labels[0] == y);
                }
            } else {
                assert(rest.contains(y));
                let k = choose|k: int| 0 <= k < rest.len() && rest[k] == y;
                assert(labels[k + 1] == y);
            }
        }
    }
}

proof fn lemma_merge_from(st: MergedRepoConfigView, sets: Seq<SetDefinitionView>)
    requires
        distinct_keys::<LabelSpec>(st.labels),
        merge_from(st, sets) is Ok,
    ensures
        ({
            let fin = merge_from(st, sets)->Ok_0;
            &&& distinct_keys::<LabelSpec>(fin.labels)
            &&& forall|x: LabelSpecView| st.labels.contains(x) ==> #[trigger] fin.labels.contains(x)
            &&& forall|l: LabelSpecView| #[trigger] defines(sets, l) ==> represents(fin.labels, l)
            &&& forall|y: LabelSpecView| #[trigger]
                fin.labels.contains(y) ==> st.labels.contains(y) || defines(sets, y)
        }),
    decreases sets.len(),
{
    if sets.len() > 0 {
        let mid = merge_set(st, sets[0])->Ok_0;
        assert(add_labels(st.labels, sets[0].labels) is Ok);
        assert(mid.labels == add_labels(st.labels, sets[0].labels)->Ok_0);
        lemma_add_labels(st.labels, sets[0].labels);
        let rest = sets.drop_first();
        lemma_merge_from(mid, rest);
        let fin = merge_from(mid, rest)->Ok_0;
        assert forall|l: LabelSpecView| #[trigger] defines(sets, l) implies represents(
            fin.labels,
            l,
        ) by {
            let (i, j) = choose|i: int, j: int|
                0 <= i < sets.len() && 0 <= j < sets[i].labels.len() && #[trigger] sets[i].labels[j]
                    == l;
            if i == 0 {
                lemma_represents_grows(mid.labels, fin.labels, l);
            } else {
                assert(rest[i - 1].labels[j] == l);
                assert(defines(rest, l));
            }
        }
        assert forall|y: LabelSpecView| #[trigger] fin.labels.contains(y) implies st.labels.contains(
            y,
        ) || defines(sets, y) by {
            if mid.labels.contains(y) {
                if !st.labels.contains(y) {
                    assert(sets[0].labels.contains(y));
                    let j = choose|j: int| 0 <= j < sets[0].labels.len() && sets[0].labels[j] == y;
                    assert(sets[0].labels[j] == y);
                }
            } else {
                assert(defines(rest, y));
                let (i, j) = choose|i: int, j: int|
                    0 <= i < rest.len() && 0 <= j < rest[i].labels.len()
                        && #[trigger] rest[i].labels[j] == y;
                assert(sets[i + 1].labels[j] == y);
            }
        }
    } else {
        assert forall|l: LabelSpecView| #[trigger] defines(sets, l) implies represents(
            st.labels,
            l,
        ) by {}
    }
}

/// The labels of a merge that succeeds: they are in the order of their
/// names, no two have the same name, each is a definition of some set, and
/// every definition of every set is represented by the merged label of
/// its name, to which it is equivalent.
pub proof fn lemma_merged_labels(sets: Seq<SetDefinitionView>)
    requires
        merged(sets) is Ok,
    ensures
        ({
            let m = merged(sets)->Ok_0;
            &&& is_sorted::<LabelSpec>(m.labels)
            &&& distinct_keys::<LabelSpec>(m.labels)
            &&& forall|k: int| 0 <= k < m.labels.len() ==> defines(sets, #[trigger] m.labels[k])
            &&& forall|l: LabelSpecView| #[trigger] defines(sets, l) ==> represents(m.labels, l)
        }),
{
    let start = nothing_merged();
    lemma_merge_from(start, sets);
    let fin = merge_from(start, sets)->Ok_0;
    let m = merged(sets)->Ok_0;
    lemma_sorted_seq::<LabelSpec>(fin.labels);
    lemma_sorted_distinct::<LabelSpec>(fin.labels);
    assert forall|k: int| 0 <= k < m.labels.len() implies defines(sets, #[trigger] m.labels[k]) by {
        assert(m.labels.contains(m.labels[k]));
        assert(fin.labels.contains(m.labels[k]));
    }
    assert forall|l: LabelSpecView| #[trigger] defines(sets, l) implies represents(m.labels, l) by {
        let k = choose|k: int| 0 <= k < fin.labels.len() && equivalent(#[trigger] fin.labels[k], l);
        assert(fin.labels.contains(fin.labels[k]));
        assert(m.labels.contains(fin.labels[k]));
        let n = choose|n: int| 0 <= n < m.labels.len() && m.labels[n] == fin.labels[k];
        assert(equivalent(m.labels[n], l));
    }
}

/// Merging detects conflicts: sets that define a label in two ways that
/// are not equivalent do not merge, in whatever order they stand.
pub proof fn lemma_conflicting_definitions_fail(
    sets: Seq<SetDefinitionView>,
    a: LabelSpecView,
    b: LabelSpecView,
)
    requires
        defines(sets, a),
        defines(sets, b),
        a.name == b.name,
        !equivalent(a, b),
    ensures
        merged(sets) is Err,
{
    if merged(sets) is Ok {
        lemma_merged_labels(sets);
        let m = merged(sets)->Ok_0;
        let i = choose|i: int| 0 <= i < m.labels.len() && equivalent(#[trigger] m.labels[i], a);
        let j = choose|j: int| 0 <= j < m.labels.len() && equivalent(#[trigger] m.labels[j], b);
        assert(i == j);
    }
}

/// The merged labels do not depend on the order of the sets. Where two
/// lists of sets hold the same definitions and both merge, their merged
/// labels have the same names at the same places, and the labels at each
/// place are equivalent. Where besides every label is defined in one way
/// only, the merged labels are the same.
pub proof fn lemma_merged_labels_order_free(
    first: Seq<SetDefinitionView>,
    second: Seq<SetDefinitionView>,
)
    requires
        merged(first) is Ok,
        merged(second) is Ok,
        forall|l: LabelSpecView| defines(first, l) <==> defines(second, l),
    ensures
        ({
            let m = merged(first)->Ok_0.labels;
            let n = merged(second)->Ok_0.labels;
            &&& m.len() == n.len()
            &&& forall|k: int| 0 <= k < m.len() ==> equivalent(#[trigger] m[k], n[k])
            &&& (forall|x: LabelSpecView, y: LabelSpecView|
                defines(first, x) && defines(first, y) && x.name == y.name ==> x == y) ==> m == n
        }),
{
    let m = merged(first)->Ok_0.labels;
    let n = merged(second)->Ok_0.labels;
    lemma_merged_labels(first);
    lemma_merged_labels(second);
    assert forall|i: int| 0 <= i < m.len() implies has_key::<LabelSpec>(n, (#[trigger] m[i]).name) by {
        assert(defines(first, m[i]));
        assert(defines(second, m[i]));
        let k = choose|k: int| 0 <= k < n.len() && equivalent(#[trigger] n[k], m[i]);
        assert(n[k].name == m[i].name);
    }
    assert forall|j: int| 0 <= j < n.len() implies has_key::<LabelSpec>(m, (#[trigger] n[j]).name) by {
        assert(defines(second, n[j]));
        assert(defines(first, n[j]));
        let k = choose|k: int| 0 <= k < m.len() && equivalent(#[trigger] m[k], n[j]);
        assert(m[k].name == n[j].name);
    }
    lemma_sorted_keys_unique::<LabelSpec>(m, n);
    assert forall|k: int| 0 <= k < m.len() implies equivalent(#[trigger] m[k], n[k]) by {
        assert(defines(first, m[k]));
        assert(defines(second, m[k]));
        let j = choose|j: int| 0 <= j < n.len() && equivalent(#[trigger] n[j], m[k]);
        assert(j == k);
    }
    if forall|x: LabelSpecView, y: LabelSpecView|
        defines(first, x) && defines(first, y) && x.name == y.name ==> x == y {
        assert forall|k: int| 0 <= k < m.len() implies m[k] == n[k] by {
            assert(defines(first, m[k]));
            assert(defines(second, n[k]));
            assert(defines(first, n[k]));
            assert(equivalent(m[k], n[k]));
        }
        assert(m =~= n);
    }
}

/// Merging two sets in either order gives the same labels: where the sets
/// merge in one order and every label that they define is defined in one
/// way only, they merge in the other order too, and to the same labels.
pub proof fn lemma_merge_commutes(a: SetDefinitionView, b: SetDefinitionView)
    requires
        merged(seq![a, b]) is Ok,
        forall|x: LabelSpecView, y: LabelSpecView|
            defines(seq![a, b], x) && defines(seq![a, b], y) && x.name == y.name ==> x == y,
    ensures
        merged(seq![b, a]) is Ok,
        merged(seq![a, b])->Ok_0.labels == merged(seq![b, a])->Ok_0.labels,
{
    lemma_compatible_symmetric(a, b);
    let first = seq![a, b];
    let second = seq![b, a];
    assert forall|l: LabelSpecView| defines(first, l) <==> defines(second, l) by {
        if defines(first, l) {
            let (i, j) = choose|i: int, j: int|
                0 <= i < first.len() && 0 <= j < first[i].labels.len()
                    && #[trigger] first[i].labels[j] == l;
            assert(second[1 - i].labels[j] == l);
        }
        if defines(second, l) {
            let (i, j) = choose|i: int, j: int|
                0 <= i < second.len() && 0 <= j < second[i].labels.len()
                    && #[trigger] second[i].labels[j] == l;
            assert(first[1 - i].labels[j] == l);
        }
    }
    lemma_merged_labels_order_free(first, second);
}

/// Every label of `labels` is equivalent to every label of `acc` and of
/// `labels` that has its name.
pub open spec fn agree_with(acc: Seq<LabelSpecView>, labels: Seq<LabelSpecView>) -> bool {
    forall|x: LabelSpecView, y: LabelSpecView|
        (acc.contains(x) || labels.contains(x)) && labels.contains(y) && x.name == y.name
            ==> equivalent(x, y)
}

/// The labels of one set after those of another are merged like the
/// labels of both in one list.
proof fn lemma_add_labels_concat(
    acc: Seq<LabelSpecView>,
    first: Seq<LabelSpecView>,
    second: Seq<LabelSpecView>,
)
    ensures
        add_labels(acc, first + second) == match add_labels(acc, first) {
            Ok(mid) => add_labels(mid, second),
            Err(e) => Err(e),
        },
    decreases first.len(),
{
    if first.len() == 0 {
        assert(first + second =~= second);
    } else {
        let all = first + second;
        assert(all[0] == first[0]);
        assert(all.drop_first() =~= first.drop_first() + second);
        match add_label(acc, first[0]) {
            Ok(next) => lemma_add_labels_concat(next, first.drop_first(), second),
            Err(_) => {},
        }
    }
}

/// Labels merge exactly when they agree.
proof fn lemma_add_labels_ok(acc: Seq<LabelSpecView>, labels: Seq<LabelSpecView>)
    requires
        distinct_keys::<LabelSpec>(acc),
    ensures
        add_labels(acc, labels) is Ok <==> agree_with(acc, labels),
    decreases labels.len(),
{
    if labels.len() > 0 {
        let l = labels[0];
        let rest = labels.drop_first();
        lemma_lookup(acc, l.name);
        assert(labels.contains(l));
        assert forall|y: LabelSpecView| rest.contains(y) implies labels.contains(y) by {
            let k = choose|k: int| 0 <= k < rest.len() && rest[k] == y;
            assert(labels[k + 1] == y);
        }
        assert forall|y: LabelSpecView| labels.contains(y) implies y == l || rest.contains(y) by {
            let k = choose|k: int| 0 <= k < labels.len() && labels[k] == y;
            if k > 0 {
                assert(rest[k - 1] == y);
            }
        }
        if add_label(acc, l) is Ok {
            let mid = add_label(acc, l)->Ok_0;
            lemma_add_label(acc, l);
            lemma_add_labels_ok(mid, rest);
            let rep = choose|k: int| 0 <= k < mid.len() && equivalent(#[trigger] mid[k], l);
            assert(mid.contains(mid[rep]));
            if add_labels(mid, rest) is Ok {
                assert forall|x: LabelSpecView, y: LabelSpecView|
                    (acc.contains(x) || labels.contains(x)) && labels.contains(y) && x.name
                        == y.name implies equivalent(x, y) by {
                    if y == l {
                        if acc.contains(x) {
                            // x is the label that `lookup_label` found.
                            let i = choose|i: int| 0 <= i < acc.len() && acc[i] == x;
                            match lookup_label(acc, l.name) {
                                Some(e) => {
                                    let j = choose|j: int| 0 <= j < acc.len() && acc[j] == e;
                                    assert(i == j);
                                },
                                None => {
                                    assert(acc[i].name != l.name);
                                },
                            }
                        } else if x != l {
                            assert(rest.contains(x));
                            assert(equivalent(mid[rep], x));
                        }
                    } else {
                        assert(rest.contains(y));
                        if acc.contains(x) {
                            assert(mid.contains(x));
                        } else if x == l {
                            assert(equivalent(mid[rep], y));
                        } else {
                            assert(rest.contains(x));
                        }
                    }
                }
            } else {
                // Some label of `rest` disagrees with one of `mid` or of `rest`.
                let (x, y) = choose|x: LabelSpecView, y: LabelSpecView|
                    (mid.contains(x) || rest.contains(x)) && rest.contains(y) && x.name == y.name
                        && !equivalent(x, y);
                assert(labels.contains(y));
                if mid.contains(x) {
                    assert(acc.contains(x) || x == l);
                } else {
                    assert(labels.contains(x));
                }
            }
            if agree_with(acc, labels) {
                assert forall|x: LabelSpecView, y: LabelSpecView|
                    (mid.contains(x) || rest.contains(x)) && rest.contains(y) && x.name
                        == y.name implies equivalent(x, y) by {
                    assert(labels.contains(y));
                    if mid.contains(x) {
                        assert(acc.contains(x) || x == l);
                    } else {
                        assert(labels.contains(x));
                    }
                }
            }
        } else {
            let e = lookup_label(acc, l.name)->0;
            assert(acc.contains(e) && e.name == l.name && !equivalent(e, l));
        }
    }
}

/// No file of `files` has a canonical path that a file of `acc` or an
/// earlier file of `files` has.
pub open spec fn paths_free(acc: Seq<IssueTemplateFileView>, files: Seq<IssueTemplateFileView>) -> bool {
    &&& forall|j: int|
        0 <= j < files.len() ==> !holds_path(acc, canonical_path((#[trigger] files[j]).path))
    &&& forall|i: int, j: int|
        0 <= i < j < files.len() ==> canonical_path(files[i].path) != canonical_path(
            files[j].path,
        )
}

proof fn lemma_add_templates_concat(
    acc: Seq<IssueTemplateFileView>,
    first: Seq<IssueTemplateFileView>,
    second: Seq<IssueTemplateFileView>,
)
    ensures
        add_templates(acc, first + second) == match add_templates(acc, first) {
            Ok(mid) => add_templates(mid, second),
            Err(e) => Err(e),
        },
    decreases first.len(),
{
    if first.len() == 0 {
        assert(first + second =~= second);
    } else {
        let all = first + second;
        assert(all[0] == first[0]);
        assert(all.drop_first() =~= first.drop_first() + second);
        match add_template(acc, first[0]) {
            Ok(next) => lemma_add_templates_concat(next, first.drop_first(), second),
            Err(_) => {},
        }
    }
}

/// Files merge exactly when their canonical paths are free.
proof fn lemma_add_templates_ok(acc: Seq<IssueTemplateFileView>, files: Seq<IssueTemplateFileView>)
    ensures
        add_templates(acc, files) is Ok <==> paths_free(acc, files),
    decreases files.len(),
{
    if files.len() > 0 {
        let t = files[0];
        let rest = files.drop_first();
        let key = canonical_path(t.path);
        if holds_path(acc, key) {
            assert(!paths_free(acc, files));
        } else {
            let mid = acc.push(t);
            lemma_add_templates_ok(mid, rest);
            assert forall|k: Seq<char>| holds_path(mid, k) <==> (holds_path(acc, k) || k == key) by {
                if holds_path(mid, k) {
                    let i = choose|i: int| 0 <= i < mid.len() && canonical_path(mid[i].path) == k;
                    if i < acc.len() {
                        assert(acc[i] == mid[i]);
                    }
                }
                if holds_path(acc, k) {
                    let i = choose|i: int| 0 <= i < acc.len() && canonical_path(acc[i].path) == k;
                    assert(mid[i] == acc[i]);
                }
                if k == key {
                    assert(mid[acc.len() as int] == t);
                }
            }
            if paths_free(mid, rest) {
                assert forall|j: int| 0 <= j < files.len() implies !holds_path(
                    acc,
                    canonical_path((#[trigger] files[j]).path),
                ) by {
                    if j > 0 {
                        assert(rest[j - 1] == files[j]);
                    }
                }
                assert forall|i: int, j: int| 0 <= i < j < files.len() implies canonical_path(
                    files[i].path,
                ) != canonical_path(files[j].path) by {
                    assert(rest[j - 1] == files[j]);
                    if i > 0 {
                        assert(rest[i - 1] == files[i]);
                    }
                }
            }
            if paths_free(acc, files) {
                assert forall|j: int| 0 <= j < rest.len() implies !holds_path(
                    mid,
                    canonical_path((#[trigger] rest[j]).path),
                ) by {
                    assert(rest[j] == files[j + 1]);
                }
                assert forall|i: int, j: int| 0 <= i < j < rest.len() implies canonical_path(
                    rest[i].path,
                ) != canonical_path(rest[j].path) by {
                    assert(rest[i] == files[i + 1] && rest[j] == files[j + 1]);
                }
            }
        }
    }
}

/// Two sets can be merged: their labels agree wherever they have the same
/// name, no two of their files have the same canonical path, and they give
/// the same settings, branch protection and checks where both give any.
pub open spec fn compatible(a: SetDefinitionView, b: SetDefinitionView) -> bool {
    &&& agree_with(Seq::empty(), a.labels + b.labels)
    &&& paths_free(Seq::empty(), a.issue_templates + b.issue_templates)
    &&& merge_scalar(a.repo_settings, b.repo_settings) is Some
    &&& merge_scalar(a.branch_protection, b.branch_protection) is Some
    &&& merge_scalar(a.checks, b.checks) is Some
}

/// Two sets merge exactly when they are compatible.
pub proof fn lemma_merged_iff_compatible(a: SetDefinitionView, b: SetDefinitionView)
    ensures
        merged(seq![a, b]) is Ok <==> compatible(a, b),
{
    let sets = seq![a, b];
    let start = nothing_merged();
    let none = Seq::<LabelSpecView>::empty();
    let no_files = Seq::<IssueTemplateFileView>::empty();
    assert(sets.drop_first() =~= seq![b]);
    assert(seq![b].drop_first() =~= Seq::<SetDefinitionView>::empty());
    assert(sets[0] == a && seq![b][0] == b);
    lemma_add_labels_concat(none, a.labels, b.labels);
    lemma_add_templates_concat(no_files, a.issue_templates, b.issue_templates);
    lemma_add_labels_ok(none, a.labels + b.labels);
    lemma_add_templates_ok(no_files, a.issue_templates + b.issue_templates);
    match merge_set(start, a) {
        Ok(mid) => {
            assert(mid.repo_settings == a.repo_settings);
            assert(mid.branch_protection == a.branch_protection);
            assert(mid.checks == a.checks);
            assert(merge_from(mid, seq![b]) == match merge_set(mid, b) {
                Ok(fin) => merge_from(fin, Seq::<SetDefinitionView>::empty()),
                Err(e) => Err::<MergedRepoConfigView, crate::merge::MergeErrorView>(e),
            });
        },
        Err(_) => {},
    }
}

/// Whether two sets can be merged does not depend on their order.
pub proof fn lemma_compatible_symmetric(a: SetDefinitionView, b: SetDefinitionView)
    ensures
        compatible(a, b) <==> compatible(b, a),
        merged(seq![a, b]) is Ok <==> merged(seq![b, a]) is Ok,
{
    lemma_merged_iff_compatible(a, b);
    lemma_merged_iff_compatible(b, a);
    if compatible(a, b) {
        lemma_compatible_one_way(a, b);
    }
    if compatible(b, a) {
        lemma_compatible_one_way(b, a);
    }
}

proof fn lemma_compatible_one_way(a: SetDefinitionView, b: SetDefinitionView)
    requires
        compatible(a, b),
    ensures
        compatible(b, a),
{
    let ab = a.labels + b.labels;
    let ba = b.labels + a.labels;
    assert forall|x: LabelSpecView| ba.contains(x) implies ab.contains(x) by {
        let k = choose|k: int| 0 <= k < ba.len() && ba[k] == x;
        if k < b.labels.len() {
            assert(ab[a.labels.len() + k] == x);
        } else {
            assert(ab[k - b.labels.len()] == x);
        }
    }
    let none = Seq::<LabelSpecView>::empty();
    assert forall|x: LabelSpecView, y: LabelSpecView|
        (none.contains(x) || ba.contains(x)) && ba.contains(y) && x.name
            == y.name implies equivalent(x, y) by {
        assert(ab.contains(x) && ab.contains(y));
    }
    let fab = a.issue_templates + b.issue_templates;
    let fba = b.issue_templates + a.issue_templates;
    let no_files = Seq::<IssueTemplateFileView>::empty();
    let n = a.issue_templates.len() as int;
    let m = b.issue_templates.len() as int;
    assert forall|i: int, j: int| 0 <= i < j < fba.len() implies canonical_path(fba[i].path)
        != canonical_path(fba[j].path) by {
        let p = if i < m {
            n + i
        } else {
            i - m
        };
        let q = if j < m {
            n + j
        } else {
            j - m
        };
        assert(fab[p] == fba[i] && fab[q] == fba[j]);
        if p < q {
            assert(canonical_path(fab[p].path) != canonical_path(fab[q].path));
        } else {
            assert(canonical_path(fab[q].path) != canonical_path(fab[p].path));
        }
    }
    assert forall|j: int| 0 <= j < fba.len() implies !holds_path(
        no_files,
        canonical_path((#[trigger] fba[j]).path),
    ) by {}
}

proof fn lemma_add_templates_distinct(
    acc: Seq<IssueTemplateFileView>,
    files: Seq<IssueTemplateFileView>,
)
    requires
        distinct_paths(acc),
        add_templates(acc, files) is Ok,
    ensures
        distinct_paths(add_templates(acc, files)->Ok_0),
    decreases files.len(),
{
    if files.len() > 0 {
        let t = files[0];
        let mid = acc.push(t);
        assert forall|i: int, j: int| 0 <= i < j < mid.len() implies canonical_path(mid[i].path)
            != canonical_path(mid[j].path) by {
            if j == acc.len() {
                assert(mid[i] == acc[i]);
            } else {
                assert(mid[i] == acc[i] && mid[j] == acc[j]);
            }
        }
        lemma_add_templates_distinct(mid, files.drop_first());
    }
}

proof fn lemma_merge_from_paths(st: MergedRepoConfigView, sets: Seq<SetDefinitionView>)
    requires
        distinct_paths(st.issue_templates),
        merge_from(st, sets) is Ok,
    ensures
        distinct_paths(merge_from(st, sets)->Ok_0.issue_templates),
    decreases sets.len(),
{
    if sets.len() > 0 {
        let mid = merge_set(st, sets[0])->Ok_0;
        assert(mid.issue_templates == add_templates(
            st.issue_templates,
            sets[0].issue_templates,
        )->Ok_0);
        lemma_add_templates_distinct(st.issue_templates, sets[0].issue_templates);
        lemma_merge_from_paths(mid, sets.drop_first());
    }
}

/// What a merge gives is well merged: its labels stand in the order of
/// their names, each name once, and each canonical path has one file.
pub proof fn lemma_merged_is_well_merged(sets: Seq<SetDefinitionView>)
    requires
        merged(sets) is Ok,
    ensures
        well_merged(merged(sets)->Ok_0),
{
    lemma_merged_labels(sets);
    lemma_merge_from_paths(nothing_merged(), sets);
}

} // verus!
