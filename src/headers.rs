use vstd::prelude::*;

use crate::text::chars_of;

verus! {

/// One header line of a request or response. `value` is `None` when the
/// value is not text (it holds bytes other than visible ASCII and tabs).
#[derive(Debug)]
pub struct Header<'a> {
    pub name: &'a str,
    pub value: Option<&'a str>,
}

pub struct HeaderView {
    pub name: Seq<char>,
    pub value: Option<Seq<char>>,
}

impl<'a> View for Header<'a> {
    type V = HeaderView;

    open spec fn view(&self) -> HeaderView {
        HeaderView {
            name: self.name@,
            value: match self.value {
                Some(v) => Some(v@),
                None => None,
            },
        }
    }
}

pub open spec fn headers_view(hs: Seq<Header>) -> Seq<HeaderView> {
    Seq::new(hs.len(), |i: int| hs[i]@)
}

/// A character with ASCII upper case folded to lower case, as a code point.
pub open spec fn folded(c: char) -> u32 {
    if 'A' <= c && c <= 'Z' {
        (c as u32 + 32) as u32
    } else {
        c as u32
    }
}

/// Header names compare without regard to ASCII case.
pub open spec fn same_name(a: Seq<char>, b: Seq<char>) -> bool {
    a.len() == b.len() && forall|i: int| 0 <= i < a.len() ==> folded(a[i]) == folded(b[i])
}

fn fold_char(c: char) -> (r: u32)
    ensures
        r == folded(c),
{
    if 'A' <= c && c <= 'Z' {
        c as u32 + 32
    } else {
        c as u32
    }
}

pub fn names_match(a: &str, b: &str) -> (r: bool)
    ensures
        r == same_name(a@, b@),
{
    let ac = chars_of(a);
    let bc = chars_of(b);
    if ac.len() != bc.len() {
        return false;
    }
    let mut i: usize = 0;
    while i < ac.len()
        invariant
            ac@ == a@,
            bc@ == b@,
            ac@.len() == bc@.len(),
            i <= ac@.len(),
            forall|j: int| 0 <= j < i ==> folded(a@[j]) == folded(b@[j]),
        decreases ac@.len() - i,
    {
        if fold_char(ac[i]) != fold_char(bc[i]) {
            return false;
        }
        i = i + 1;
    }
    true
}

/// The first header of that name: `None` when there is none, else its value
/// (`None` again when the value is not text).
pub open spec fn lookup(hs: Seq<HeaderView>, name: Seq<char>) -> Option<Option<Seq<char>>>
    decreases hs.len(),
{
    if hs.len() == 0 {
        None
    } else if same_name(hs[0].name, name) {
        Some(hs[0].value)
    } else {
        lookup(hs.drop_first(), name)
    }
}

/// The first header of that name, by index.
pub fn find_header<'a>(headers: &Vec<Header<'a>>, name: &str) -> (r: Option<usize>)
    ensures
        match r {
            Some(i) => i < headers@.len() && lookup(headers_view(headers@), name@) == Some(
                headers@[i as int]@.value,
            ),
            None => lookup(headers_view(headers@), name@) is None,
        },
{
    let ghost hv = headers_view(headers@);
    let mut i: usize = 0;
    assert(hv.subrange(0, hv.len() as int) =~= hv);
    while i < headers.len()
        invariant
            hv == headers_view(headers@),
            i <= headers@.len(),
            lookup(hv, name@) == lookup(hv.subrange(i as int, hv.len() as int), name@),
        decreases headers@.len() - i,
    {
        let ghost rest = hv.subrange(i as int, hv.len() as int);
        assert(rest.drop_first() =~= hv.subrange(i + 1, hv.len() as int));
        assert(rest[0] == headers@[i as int]@);
        if names_match(headers[i].name, name) {
            return Some(i);
        }
        i = i + 1;
    }
    None
}

/// The values of all the headers of that name, in order, a value that is not
/// text counting as empty.
pub open spec fn values_named(hs: Seq<HeaderView>, name: Seq<char>) -> Seq<Seq<char>>
    decreases hs.len(),
{
    if hs.len() == 0 {
        Seq::empty()
    } else {
        let h = hs.last();
        values_named(hs.drop_last(), name) + if same_name(h.name, name) {
            seq![
                match h.value {
                    Some(v) => v,
                    None => Seq::empty(),
                },
            ]
        } else {
            Seq::empty()
        }
    }
}

pub open spec fn views_of(values: Seq<&str>) -> Seq<Seq<char>> {
    Seq::new(values.len(), |i: int| values[i]@)
}

/// Every value of the headers of that name, as `values_named` gives them.
pub fn all_values<'a>(headers: &Vec<Header<'a>>, name: &str) -> (r: Vec<&'a str>)
    ensures
        views_of(r@) == values_named(headers_view(headers@), name@),
{
    let mut r: Vec<&'a str> = Vec::new();
    let mut i: usize = 0;
    while i < headers.len()
        invariant
            i <= headers@.len(),
            views_of(r@) == values_named(headers_view(headers@.subrange(0, i as int)), name@),
        decreases headers@.len() - i,
    {
        let ghost pre = headers_view(headers@.subrange(0, i as int));
        let ghost next = headers_view(headers@.subrange(0, i + 1));
        assert(next.drop_last() =~= pre);
        assert(next.last() == headers@[i as int]@);
        let ghost before = r@;
        if names_match(headers[i].name, name) {
            proof {
                reveal_strlit("");
            }
            let v: &'a str = match headers[i].value {
                Some(v) => v,
                None => "",
            };
            let ghost expected = match next.last().value {
                Some(x) => x,
                None => Seq::<char>::empty(),
            };
            assert(v@ =~= expected);
            r.push(v);
            assert(views_of(r@) =~= views_of(before) + seq![expected]);
        } else {
            assert(views_of(r@) =~= views_of(before) + Seq::<Seq<char>>::empty());
        }
        i = i + 1;
    }
    assert(headers@.subrange(0, i as int) =~= headers@);
    r
}

} // verus!
