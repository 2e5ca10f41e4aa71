//! The node names a type can be read from.
use vstd::prelude::*;

use crate::text::str_eq;

verus! {

/// The node names a type can be parsed from: any name, or those of a list.
#[derive(Clone, Debug)]
pub enum AllowedNodeNames {
    Any,
    Iter(Vec<&'static str>),
}

/// The mathematical content of [`AllowedNodeNames`].
pub enum NamesView {
    Any,
    Names(Seq<Seq<char>>),
}

impl View for AllowedNodeNames {
    type V = NamesView;

    open spec fn view(&self) -> NamesView {
        match self {
            AllowedNodeNames::Any => NamesView::Any,
            AllowedNodeNames::Iter(v) => NamesView::Names(
                str_views(v@),
            ),
        }
    }
}

/// The characters of each string of `v`.
pub open spec fn str_views(v: Seq<&'static str>) -> Seq<Seq<char>> {
    v.map_values(|n: &'static str| n@)
}

/// `name` is one of the allowed names.
pub open spec fn spec_is_allowed(names: NamesView, name: Seq<char>) -> bool {
    match names {
        NamesView::Any => true,
        NamesView::Names(ns) => ns.contains(name),
    }
}

/// No name is allowed.
pub open spec fn spec_is_empty(names: NamesView) -> bool {
    match names {
        NamesView::Any => false,
        NamesView::Names(ns) => ns.len() == 0,
    }
}

/// The names allowed by either.
pub open spec fn spec_combine(a: NamesView, b: NamesView) -> NamesView {
    match (a, b) {
        (NamesView::Names(x), NamesView::Names(y)) => NamesView::Names(x + y),
        _ => NamesView::Any,
    }
}

/// The strings of `ns` separated by `sep`.
pub open spec fn join(ns: Seq<Seq<char>>, sep: Seq<char>) -> Seq<char>
    decreases ns.len(),
{
    if ns.len() == 0 {
        Seq::empty()
    } else if ns.len() == 1 {
        ns[0]
    } else {
        join(ns.drop_last(), sep) + sep + ns.last()
    }
}

/// The text listing the allowed names.
pub open spec fn spec_names_text(names: NamesView) -> Seq<char> {
    match names {
        NamesView::Any => "any node"@,
        NamesView::Names(ns) => join(ns, ","@),
    }
}

impl AllowedNodeNames {
    /// Whether a node named `name` is allowed.
    pub fn is_allowed(&self, name: &str) -> (res: bool)
        ensures
            res == spec_is_allowed(self@, name@),
    {
        match self {
            AllowedNodeNames::Any => true,
            AllowedNodeNames::Iter(v) => {
                let ghost ns = str_views(v@);
                let mut i: usize = 0;
                while i < v.len()
                    invariant
                        i <= v@.len(),
                        ns == str_views(v@),
                        self@ == NamesView::Names(ns),
                        forall|k: int| 0 <= k < i ==> ns[k] != name@,
                    decreases v@.len() - i,
                {
                    if str_eq(v[i], name) {
                        assert(ns[i as int] == name@);
                        assert(ns.contains(name@));
                        return true;
                    }
                    i = i + 1;
                }
                assert(!ns.contains(name@));
                false
            },
        }
    }

    /// Whether no name at all is allowed.
    pub fn is_empty(&self) -> (res: bool)
        ensures
            res == spec_is_empty(self@),
    {
        match self {
            AllowedNodeNames::Any => false,
            AllowedNodeNames::Iter(v) => v.len() == 0,
        }
    }

    /// The names allowed by `self` or by `other`: any name if either allows
    /// any name, else the names of `self` followed by those of `other`.
    pub fn combine(self, other: AllowedNodeNames) -> (res: AllowedNodeNames)
        ensures
            res@ == spec_combine(self@, other@),
    {
        match (self, other) {
            (AllowedNodeNames::Iter(a), AllowedNodeNames::Iter(b)) => {
                let mut a = a;
                let mut b = b;
                let ghost a0 = a@;
                let ghost b0 = b@;
                a.append(&mut b);
                proof {
                    assert(str_views(a@) =~= str_views(a0) + str_views(b0));
                }
                AllowedNodeNames::Iter(a)
            },
            _ => AllowedNodeNames::Any,
        }
    }

    /// The allowed names separated by `,`, or "any node".
    pub fn to_string(&self) -> (res: String)
        ensures
            res@ == spec_names_text(self@),
    {
        match self {
            AllowedNodeNames::Any => String::from_str("any node"),
            AllowedNodeNames::Iter(v) => {
                let ghost ns = str_views(v@);
                let mut s = String::new();
                let mut i: usize = 0;
                proof {
                    assert(ns.take(0) =~= Seq::<Seq<char>>::empty());
                }
                while i < v.len()
                    invariant
                        i <= v@.len(),
                        ns == str_views(v@),
                        self@ == NamesView::Names(ns),
                        s@ == join(ns.take(i as int), ","@),
                    decreases v@.len() - i,
                {
                    if i > 0 {
                        s.append(",");
                    }
                    s.append(v[i]);
                    proof {
                        let t = ns.take(i + 1);
                        assert(t.drop_last() =~= ns.take(i as int));
                        if i == 0 {
                            assert(s@ =~= join(t, ","@));
                        }
                    }
                    i = i + 1;
                }
                assert(ns.take(v@.len() as int) =~= ns);
                s
            },
        }
    }

    /// No name is allowed.
    pub fn empty() -> (res: AllowedNodeNames)
        ensures
            res@ == NamesView::Names(Seq::empty()),
    {
        let v: Vec<&'static str> = Vec::new();
        let res = AllowedNodeNames::Iter(v);
        assert(res@ == NamesView::Names(Seq::empty())) by {
            assert(str_views(v@) =~= Seq::<Seq<char>>::empty());
        }
        res
    }

    /// Only `name` is allowed.
    pub fn from_single(name: &'static str) -> (res: AllowedNodeNames)
        ensures
            res@ == NamesView::Names(seq![name@]),
    {
        let mut v: Vec<&'static str> = Vec::new();
        v.push(name);
        let res = AllowedNodeNames::Iter(v);
        assert(res@ == NamesView::Names(seq![name@])) by {
            assert(str_views(v@) =~= seq![name@]);
        }
        res
    }

    /// Any name is allowed.
    pub fn any() -> (res: AllowedNodeNames)
        ensures
            res@ == NamesView::Any,
    {
        AllowedNodeNames::Any
    }

    /// The names of `slice` are allowed.
    pub fn from_slice(slice: &[&'static str]) -> (res: AllowedNodeNames)
        ensures
            res@ == NamesView::Names(str_views(slice@)),
    {
        let mut v: Vec<&'static str> = Vec::new();
        let mut i: usize = 0;
        while i < slice.len()
            invariant
                i <= slice@.len(),
                v@ == slice@.take(i as int),
            decreases slice@.len() - i,
        {
            v.push(slice[i]);
            i = i + 1;
            proof {
                assert(v@ =~= slice@.take(i as int));
            }
        }
        assert(slice@.take(slice@.len() as int) =~= slice@);
        AllowedNodeNames::Iter(v)
    }
}

} // verus!
