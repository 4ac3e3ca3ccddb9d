//! The directory listing assembler: keep the children the policy lets a
//! visitor see, sort them in the requested order, and project them into
//! entries.

use vstd::prelude::*;

use crate::config::{spec_method_for, Config, ConfigV};
use crate::entry::{minute_label, Entry, EntryV};
use crate::strutil::{clone_names, lemma_lex_total, lemma_lex_trans, lex_le, lex_le_str};

verus! {

/// Order in which the entries are sorted.
#[derive(Debug, Clone, Copy, Eq, PartialEq, Structural)]
pub enum EntryOrder {
    Lexicographical,
    Chronological,
}

/// The order a request asks for: `"chronological"` is recognized; anything
/// else, or no request at all, falls back to the lexicographical default.
pub open spec fn spec_entry_order(v: Option<Seq<char>>) -> EntryOrder {
    match v {
        Some(s) => if s == "chronological"@ {
            EntryOrder::Chronological
        } else {
            EntryOrder::Lexicographical
        },
        None => EntryOrder::Lexicographical,
    }
}

/// Reads the `order` query value into an [`EntryOrder`], falling back to the
/// lexicographical default deterministically.
pub fn get_entry_order(order_param: Option<&String>) -> (r: EntryOrder)
    ensures
        r == spec_entry_order(
            match order_param {
                Some(s) => Some(s@),
                None => None,
            },
        ),
{
    match order_param {
        Some(s) => {
            let chron = String::from_str("chronological");
            if *s == chron {
                EntryOrder::Chronological
            } else {
                EntryOrder::Lexicographical
            }
        },
        None => EntryOrder::Lexicographical,
    }
}

/// The mathematical value of a [`ChildRecord`].
pub struct ChildV {
    pub name: Seq<char>,
    pub is_dir: bool,
    pub modified_secs: Option<i64>,
}

/// One directory child as the filesystem reports it: its name, whether it is
/// a directory, and its modification time in seconds since the Unix epoch,
/// `None` where the time could not be read.
#[derive(Debug)]
pub struct ChildRecord {
    pub name: String,
    pub is_dir: bool,
    pub modified_secs: Option<i64>,
}

impl View for ChildRecord {
    type V = ChildV;

    open spec fn view(&self) -> ChildV {
        ChildV { name: self.name@, is_dir: self.is_dir, modified_secs: self.modified_secs }
    }
}

impl DeepView for ChildRecord {
    type V = ChildV;

    open spec fn deep_view(&self) -> ChildV {
        self.view()
    }
}

/// Ascending modification time; a child whose time could not be read
/// compares as equal to anything.
pub open spec fn chron_le(a: ChildV, b: ChildV) -> bool {
    a.modified_secs is None || b.modified_secs is None || a.modified_secs.unwrap()
        <= b.modified_secs.unwrap()
}

/// The comparison each order sorts by.
pub open spec fn order_le(o: EntryOrder, a: ChildV, b: ChildV) -> bool {
    match o {
        EntryOrder::Lexicographical => lex_le(a.name, b.name),
        EntryOrder::Chronological => chron_le(a, b),
    }
}

/// Every neighbouring pair is ordered.
pub open spec fn adjacent_sorted(o: EntryOrder, s: Seq<ChildV>) -> bool {
    forall|k: int| 0 <= k < s.len() - 1 ==> order_le(o, #[trigger] s[k], s[k + 1])
}

/// Every pair is ordered, near or not.
pub open spec fn pairwise_sorted(o: EntryOrder, s: Seq<ChildV>) -> bool {
    forall|i: int, j: int| 0 <= i < j < s.len() ==> order_le(o, s[i], s[j])
}

proof fn lemma_lex_chain(s: Seq<ChildV>, i: int, j: int)
    requires
        adjacent_sorted(EntryOrder::Lexicographical, s),
        0 <= i < j < s.len(),
    ensures
        lex_le(s[i].name, s[j].name),
    decreases j - i,
{
    if j == i + 1 {
    } else {
        lemma_lex_chain(s, i, j - 1);
        assert(order_le(EntryOrder::Lexicographical, s[j - 1], s[j]));
        lemma_lex_trans(s[i].name, s[j - 1].name, s[j].name);
    }
}

/// In lexicographical order, a sequence whose neighbours are ordered is
/// ordered throughout: the comparison is transitive.
pub proof fn lemma_lex_adjacent_pairwise(s: Seq<ChildV>)
    requires
        adjacent_sorted(EntryOrder::Lexicographical, s),
    ensures
        pairwise_sorted(EntryOrder::Lexicographical, s),
{
    assert forall|i: int, j: int| 0 <= i < j < s.len() implies order_le(
        EntryOrder::Lexicographical,
        s[i],
        s[j],
    ) by {
        lemma_lex_chain(s, i, j);
    }
}

/// The chronological comparison relates every pair of children, unreadable
/// times counting as equal to anything.
pub proof fn lemma_chron_total(a: ChildV, b: ChildV)
    ensures
        chron_le(a, b) || chron_le(b, a),
{
}

/// Decides [`order_le`].
fn child_le(o: EntryOrder, a: &ChildRecord, b: &ChildRecord) -> (r: bool)
    ensures
        r == order_le(o, a@, b@),
{
    match o {
        EntryOrder::Lexicographical => lex_le_str(a.name.as_str(), b.name.as_str()),
        EntryOrder::Chronological => match (a.modified_secs, b.modified_secs) {
            (Some(x), Some(y)) => x <= y,
            _ => true,
        },
    }
}

/// Sorts the children by insertion in the requested order. The result holds
/// the same children; every neighbouring pair is ordered, and under the
/// lexicographical order every pair is.
pub fn sort_children(v: &mut Vec<ChildRecord>, order: EntryOrder)
    ensures
        final(v).deep_view().to_multiset() == old(v).deep_view().to_multiset(),
        adjacent_sorted(order, final(v).deep_view()),
        order is Lexicographical ==> pairwise_sorted(order, final(v).deep_view()),
{
    if v.len() == 0 {
        return ;
    }
    let ghost orig = v.deep_view();
    let mut i: usize = 1;
    while i < v.len()
        invariant
            1 <= i <= v.len(),
            v.deep_view().to_multiset() == orig.to_multiset(),
            adjacent_sorted(order, v.deep_view().take(i as int)),
        decreases v.len() - i,
    {
        let ghost u = v.deep_view();
        let x = v.remove(i);
        let ghost p = v.deep_view();
        proof {
            assert(p =~= u.remove(i as int));
            assert(x@ == u[i as int]);
        }
        let mut j: usize = i;
        while j > 0 && !child_le(order, &v[j - 1], &x)
            invariant
                j <= i,
                i < u.len(),
                v@.len() == u.len() - 1,
                v.deep_view() == p,
                p =~= u.remove(i as int),
                x@ == u[i as int],
                adjacent_sorted(order, v.deep_view().take(i as int)),
                forall|k: int| j <= k < i ==> order_le(order, x@, #[trigger] p[k]),
            decreases j,
        {
            proof {
                assert(v.deep_view()[j - 1] == p[j - 1]);
                if order is Lexicographical {
                    lemma_lex_total(p[j - 1].name, x@.name);
                }
                assert(order_le(order, x@, p[j - 1]));
            }
            j = j - 1;
        }
        v.insert(j, x);
        let ghost w = v.deep_view();
        proof {
            assert(w =~= p.insert(j as int, x@));
            assert forall|k: int| 0 <= k < i implies order_le(order, #[trigger] w[k], w[k + 1]) by {
                if k + 1 < j {
                    assert(w[k] == p[k] && w[k + 1] == p[k + 1]);
                } else if k + 1 == j {
                    assert(w[k] == p[k] && w[k + 1] == x@);
                } else if k == j {
                    assert(w[k] == x@ && w[k + 1] == p[k]);
                } else {
                    assert(w[k] == p[k - 1] && w[k + 1] == p[k]);
                }
            }
            assert(adjacent_sorted(order, w.take(i + 1)));
            assert(w.to_multiset() =~= u.to_multiset()) by {
                broadcast use vstd::seq_lib::group_to_multiset_ensures;
                broadcast use vstd::multiset::group_multiset_axioms;

                assert(w.remove(j as int) =~= p);
                assert(w[j as int] == x@);
                assert(w.to_multiset().remove(x@) =~= p.to_multiset());
                assert(u.to_multiset().remove(x@) =~= p.to_multiset());
                assert(w.to_multiset().contains(x@)) by {
                    assert(w.contains(x@));
                }
                assert(u.to_multiset().contains(x@)) by {
                    assert(u.contains(x@));
                }
                assert forall|y: ChildV| w.to_multiset().count(y) == u.to_multiset().count(
                    y,
                ) by {
                    if y == x@ {
                        assert(w.to_multiset().count(y) == p.to_multiset().count(y) + 1);
                        assert(u.to_multiset().count(y) == p.to_multiset().count(y) + 1);
                    } else {
                        assert(w.to_multiset().count(y) == w.to_multiset().remove(x@).count(y));
                        assert(u.to_multiset().count(y) == u.to_multiset().remove(x@).count(y));
                    }
                }
            }
        }
        i = i + 1;
    }
    proof {
        assert(v.deep_view().take(v.len() as int) =~= v.deep_view());
        if order is Lexicographical {
            lemma_lex_adjacent_pairwise(v.deep_view());
        }
    }
}

/// Whether the policy gives a child of the listed directory any access
/// method at all; only visibility matters here, not which method.
pub open spec fn child_visible(cfg: ConfigV, parent: Seq<Seq<char>>, c: ChildV) -> bool {
    spec_method_for(cfg, parent.push(c.name), c.is_dir) is Some
}

/// The children of `children` that the policy lets a visitor see, in their
/// original order.
pub open spec fn visible_children(
    cfg: ConfigV,
    parent: Seq<Seq<char>>,
    children: Seq<ChildV>,
) -> Seq<ChildV>
    decreases children.len(),
{
    if children.len() == 0 {
        Seq::empty()
    } else {
        let rest = visible_children(cfg, parent, children.drop_last());
        if child_visible(cfg, parent, children.last()) {
            rest.push(children.last())
        } else {
            rest
        }
    }
}

/// The entry a child is shown as.
pub open spec fn entry_view_of(c: ChildV) -> EntryV {
    EntryV { is_dir: c.is_dir, file_name: c.name, modified: minute_label(c.modified_secs) }
}

/// `es` lists exactly the visible children among `children`, arranged as
/// some ordering `s` of them that the requested order accepts.
pub open spec fn listing_arrangement(
    cfg: ConfigV,
    parent: Seq<Seq<char>>,
    children: Seq<ChildV>,
    order: EntryOrder,
    s: Seq<ChildV>,
    es: Seq<EntryV>,
) -> bool {
    &&& s.to_multiset() == visible_children(cfg, parent, children).to_multiset()
    &&& adjacent_sorted(order, s)
    &&& es.len() == s.len()
    &&& forall|k: int| 0 <= k < s.len() ==> es[k] == entry_view_of(s[k])
}

/// Assembles the listing of a policy-approved directory: the children the
/// policy shows, sorted in the requested order, projected into entries.
pub fn assemble_listing(
    config: &Config,
    parent: &Vec<String>,
    children: &Vec<ChildRecord>,
    order: EntryOrder,
) -> (r: Vec<Entry>)
    ensures
        exists|s: Seq<ChildV>|
            #[trigger] listing_arrangement(
                config@,
                parent.deep_view(),
                children.deep_view(),
                order,
                s,
                r.deep_view(),
            ),
        order is Lexicographical ==> forall|i: int, j: int|
            0 <= i < j < r.deep_view().len() ==> lex_le(
                r.deep_view()[i].file_name,
                r.deep_view()[j].file_name,
            ),
{
    let ghost cfgv = config@;
    let ghost pv = parent.deep_view();
    let ghost cv = children.deep_view();

    let mut kept: Vec<ChildRecord> = Vec::new();
    let mut i: usize = 0;
    while i < children.len()
        invariant
            i <= children.len(),
            cfgv == config@,
            pv == parent.deep_view(),
            cv == children.deep_view(),
            kept.deep_view() =~= visible_children(cfgv, pv, cv.take(i as int)),
        decreases children.len() - i,
    {
        let c = &children[i];
        let mut segs = clone_names(parent);
        segs.push(c.name.clone());
        proof {
            assert(segs.deep_view() =~= pv.push(c.name@));
        }
        let visible = config.method_for(&segs, c.is_dir).is_some();
        let ghost pre = kept.deep_view();
        if visible {
            kept.push(
                ChildRecord {
                    name: c.name.clone(),
                    is_dir: c.is_dir,
                    modified_secs: c.modified_secs,
                },
            );
            proof {
                assert(kept.deep_view() =~= pre.push(cv[i as int]));
            }
        }
        proof {
            assert(cv.take(i + 1).drop_last() =~= cv.take(i as int));
            assert(cv.take(i + 1).last() == cv[i as int]);
        }
        i = i + 1;
    }
    proof {
        assert(cv.take(children.len() as int) =~= cv);
    }
    let ghost vis = kept.deep_view();

    sort_children(&mut kept, order);
    let ghost sorted = kept.deep_view();

    let mut out: Vec<Entry> = Vec::new();
    let mut k: usize = 0;
    while k < kept.len()
        invariant
            k <= kept.len(),
            sorted == kept.deep_view(),
            out.deep_view().len() == k,
            forall|m: int| 0 <= m < k ==> out.deep_view()[m] == entry_view_of(sorted[m]),
        decreases kept.len() - k,
    {
        let c = &kept[k];
        let e = Entry::from(c.name.as_str(), c.is_dir, c.modified_secs);
        let ghost pre = out.deep_view();
        out.push(e);
        proof {
            assert(out.deep_view() =~= pre.push(e@));
        }
        k = k + 1;
    }

    proof {
        assert(listing_arrangement(cfgv, pv, cv, order, sorted, out.deep_view()));
        if order is Lexicographical {
            lemma_lex_adjacent_pairwise(sorted);
            assert forall|a: int, b: int|
                0 <= a < b < out.deep_view().len() implies lex_le(
                out.deep_view()[a].file_name,
                out.deep_view()[b].file_name,
            ) by {
                assert(out.deep_view()[a] == entry_view_of(sorted[a]));
                assert(out.deep_view()[b] == entry_view_of(sorted[b]));
                assert(order_le(EntryOrder::Lexicographical, sorted[a], sorted[b]));
            }
        }
    }
    out
}

} // verus!
