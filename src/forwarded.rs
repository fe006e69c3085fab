use vstd::prelude::*;

use crate::headers::views_of;
use crate::text::{chars_of, trim, trim_range};

verus! {

/// The four parameters of a `Forwarded` header that this library reads.
#[derive(Clone, Copy, Debug, PartialEq, Eq, Structural)]
pub enum ForwardedKey {
    By,
    For,
    Host,
    Proto,
}

pub open spec fn key_seq(k: ForwardedKey) -> Seq<char> {
    match k {
        ForwardedKey::By => seq!['b', 'y'],
        ForwardedKey::For => seq!['f', 'o', 'r'],
        ForwardedKey::Host => seq!['h', 'o', 's', 't'],
        ForwardedKey::Proto => seq!['p', 'r', 'o', 't', 'o'],
    }
}

fn key_chars(k: ForwardedKey) -> (r: Vec<char>)
    ensures
        r@ == key_seq(k),
{
    let mut r: Vec<char> = Vec::new();
    match k {
        ForwardedKey::By => {
            r.push('b');
            r.push('y');
        },
        ForwardedKey::For => {
            r.push('f');
            r.push('o');
            r.push('r');
        },
        ForwardedKey::Host => {
            r.push('h');
            r.push('o');
            r.push('s');
            r.push('t');
        },
        ForwardedKey::Proto => {
            r.push('p');
            r.push('r');
            r.push('o');
            r.push('t');
            r.push('o');
        },
    }
    assert(r@ =~= key_seq(k));
    r
}

/// What a `Forwarded` header says of the request: each field borrows its
/// text from the header value it was read from.
#[derive(Debug)]
pub struct ForwardedHeaderFields<'a> {
    pub by: Option<&'a str>,
    pub for_field: Option<&'a str>,
    pub host: Option<&'a str>,
    pub proto: Option<&'a str>,
}

pub struct FieldsView {
    pub by: Option<Seq<char>>,
    pub for_field: Option<Seq<char>>,
    pub host: Option<Seq<char>>,
    pub proto: Option<Seq<char>>,
}

pub open spec fn opt_view(o: Option<&str>) -> Option<Seq<char>> {
    match o {
        Some(s) => Some(s@),
        None => None,
    }
}

impl<'a> View for ForwardedHeaderFields<'a> {
    type V = FieldsView;

    open spec fn view(&self) -> FieldsView {
        FieldsView {
            by: opt_view(self.by),
            for_field: opt_view(self.for_field),
            host: opt_view(self.host),
            proto: opt_view(self.proto),
        }
    }
}

pub open spec fn no_fields() -> FieldsView {
    FieldsView { by: None, for_field: None, host: None, proto: None }
}

/// A separator of list items (`,`), or also of pairs (`;`) where `pairs` holds.
pub open spec fn is_separator(c: char, pairs: bool) -> bool {
    c == ',' || (pairs && c == ';')
}

/// The parts of `s` between separators, the first one extending `cur`.
pub open spec fn pieces_from(s: Seq<char>, cur: Seq<char>, pairs: bool) -> Seq<Seq<char>>
    decreases s.len(),
{
    if s.len() == 0 {
        seq![cur]
    } else if is_separator(s[0], pairs) {
        seq![cur] + pieces_from(s.drop_first(), Seq::empty(), pairs)
    } else {
        pieces_from(s.drop_first(), cur.push(s[0]), pairs)
    }
}

/// The `key=value` pairs of one header value, in order: splitting it into
/// hop sections at `,` and each section at `;` gives its parts between any
/// of the two.
pub open spec fn pairs_of(s: Seq<char>) -> Seq<Seq<char>> {
    pieces_from(s, Seq::empty(), true)
}

/// The items of a comma-separated list, untrimmed.
pub open spec fn list_items(s: Seq<char>) -> Seq<Seq<char>> {
    pieces_from(s, Seq::empty(), false)
}

/// The value that one pair gives `key`: the pair, trimmed, is the key, `=`,
/// and a value that holds no `=`.
pub open spec fn pair_value(pair: Seq<char>, key: Seq<char>) -> Option<Seq<char>> {
    let t = trim(pair);
    if t.len() > key.len() && t.subrange(0, key.len() as int) == key && t[key.len() as int]
        == '=' && (forall|i: int| key.len() < i < t.len() ==> t[i] != '=') {
        Some(t.subrange(key.len() as int + 1, t.len() as int))
    } else {
        None
    }
}

pub open spec fn updated(old: Option<Seq<char>>, pair: Seq<char>, k: ForwardedKey) -> Option<
    Seq<char>,
> {
    match pair_value(pair, key_seq(k)) {
        Some(v) => Some(v),
        None => old,
    }
}

pub open spec fn apply_pair(f: FieldsView, pair: Seq<char>) -> FieldsView {
    FieldsView {
        by: updated(f.by, pair, ForwardedKey::By),
        for_field: updated(f.for_field, pair, ForwardedKey::For),
        host: updated(f.host, pair, ForwardedKey::Host),
        proto: updated(f.proto, pair, ForwardedKey::Proto),
    }
}

/// The fields after reading `pairs` in order: a later pair overrides an
/// earlier one.
pub open spec fn apply_pairs(f: FieldsView, pairs: Seq<Seq<char>>) -> FieldsView
    decreases pairs.len(),
{
    if pairs.len() == 0 {
        f
    } else {
        apply_pair(apply_pairs(f, pairs.drop_last()), pairs.last())
    }
}

/// The fields of all the occurrences of the header, read in order.
pub open spec fn parsed_fields(values: Seq<Seq<char>>) -> FieldsView
    decreases values.len(),
{
    if values.len() == 0 {
        no_fields()
    } else {
        apply_pairs(parsed_fields(values.drop_last()), pairs_of(values.last()))
    }
}


/// The range of the value that `cs[lo..hi]` gives `key`, if any.
fn pair_value_range(cs: &Vec<char>, lo: usize, hi: usize, key: ForwardedKey) -> (r: Option<
    (usize, usize),
>)
    requires
        lo <= hi <= cs@.len(),
    ensures
        match r {
            Some((x, y)) => lo <= x <= y <= hi && pair_value(
                cs@.subrange(lo as int, hi as int),
                key_seq(key),
            ) == Some(cs@.subrange(x as int, y as int)),
            None => pair_value(cs@.subrange(lo as int, hi as int), key_seq(key)) is None,
        },
{
    let (a, b) = trim_range(cs, lo, hi);
    let ghost t = cs@.subrange(a as int, b as int);
    let kc = key_chars(key);
    let kl = kc.len();
    if b - a <= kl {
        return None;
    }
    let mut i: usize = 0;
    while i < kl
        invariant
            a + kl < b <= cs@.len(),
            kl == kc@.len(),
            kc@ == key_seq(key),
            lo <= hi <= cs@.len(),
            t == cs@.subrange(a as int, b as int),
            t == trim(cs@.subrange(lo as int, hi as int)),
            i <= kl,
            forall|j: int| 0 <= j < i ==> cs@[a + j] == kc@[j],
        decreases kl - i,
    {
        if cs[a + i] != kc[i] {
            assert(t.subrange(0, kl as int)[i as int] != kc@[i as int]);
            return None;
        }
        i = i + 1;
    }
    assert(t.subrange(0, kl as int) =~= kc@);
    if cs[a + kl] != '=' {
        return None;
    }
    let mut j: usize = a + kl + 1;
    while j < b
        invariant
            a + kl < j <= b <= cs@.len(),
            kl == kc@.len(),
            kc@ == key_seq(key),
            lo <= hi <= cs@.len(),
            t == cs@.subrange(a as int, b as int),
            t == trim(cs@.subrange(lo as int, hi as int)),
            forall|m: int| a + kl < m < j ==> cs@[m] != '=',
        decreases b - j,
    {
        if cs[j] == '=' {
            assert(t[j - a] == '=');
            return None;
        }
        j = j + 1;
    }
    assert(t.subrange(kl + 1, t.len() as int) =~= cs@.subrange(a + kl + 1, b as int));
    Some((a + kl + 1, b))
}

fn take_value<'a>(
    v: &'a str,
    cs: &Vec<char>,
    lo: usize,
    hi: usize,
    key: ForwardedKey,
    current: Option<&'a str>,
) -> (r: Option<&'a str>)
    requires
        cs@ == v@,
        lo <= hi <= cs@.len(),
    ensures
        opt_view(r) == updated(opt_view(current), cs@.subrange(lo as int, hi as int), key),
{
    match pair_value_range(cs, lo, hi, key) {
        Some((x, y)) => Some(v.substring_char(x, y)),
        None => current,
    }
}

fn read_pair<'a>(f: ForwardedHeaderFields<'a>, v: &'a str, cs: &Vec<char>, lo: usize, hi: usize) -> (r:
    ForwardedHeaderFields<'a>)
    requires
        cs@ == v@,
        lo <= hi <= cs@.len(),
    ensures
        r@ == apply_pair(f@, cs@.subrange(lo as int, hi as int)),
{
    ForwardedHeaderFields {
        by: take_value(v, cs, lo, hi, ForwardedKey::By, f.by),
        for_field: take_value(v, cs, lo, hi, ForwardedKey::For, f.for_field),
        host: take_value(v, cs, lo, hi, ForwardedKey::Host, f.host),
        proto: take_value(v, cs, lo, hi, ForwardedKey::Proto, f.proto),
    }
}

proof fn lemma_apply_push(f: FieldsView, pairs: Seq<Seq<char>>, p: Seq<char>)
    ensures
        apply_pairs(f, pairs.push(p)) == apply_pair(apply_pairs(f, pairs), p),
{
    assert(pairs.push(p).drop_last() =~= pairs);
}

fn read_value<'a>(f: ForwardedHeaderFields<'a>, v: &'a str) -> (r: ForwardedHeaderFields<'a>)
    ensures
        r@ == apply_pairs(f@, pairs_of(v@)),
{
    let cs = chars_of(v);
    let n = cs.len();
    let mut fields = f;
    let mut start: usize = 0;
    let mut i: usize = 0;
    let ghost mut done: Seq<Seq<char>> = Seq::empty();
    assert(cs@.subrange(0, 0) =~= Seq::<char>::empty());
    assert(cs@.subrange(0, n as int) =~= cs@);
    while i < n
        invariant
            cs@ == v@,
            n == cs@.len(),
            start <= i <= n,
            pairs_of(v@) == done + pieces_from(
                cs@.subrange(i as int, n as int),
                cs@.subrange(start as int, i as int),
                true,
            ),
            fields@ == apply_pairs(f@, done),
        decreases n - i,
    {
        let ghost rest = cs@.subrange(i as int, n as int);
        let ghost cur = cs@.subrange(start as int, i as int);
        assert(rest.drop_first() =~= cs@.subrange(i + 1, n as int));
        assert(rest[0] == cs@[i as int]);
        if cs[i] == ',' || cs[i] == ';' {
            fields = read_pair(fields, v, &cs, start, i);
            proof {
                lemma_apply_push(f@, done, cur);
                assert(cs@.subrange(i + 1, i + 1) =~= Seq::<char>::empty());
                assert(done + pieces_from(rest, cur, true) =~= done.push(cur) + pieces_from(
                    cs@.subrange(i + 1, n as int),
                    Seq::empty(),
                    true,
                ));
                done = done.push(cur);
            }
            start = i + 1;
        } else {
            assert(cur.push(cs@[i as int]) =~= cs@.subrange(start as int, i + 1));
        }
        i = i + 1;
    }
    let ghost last = cs@.subrange(start as int, n as int);
    assert(cs@.subrange(n as int, n as int) =~= Seq::<char>::empty());
    assert(pieces_from(Seq::<char>::empty(), last, true) == seq![last]);
    assert(done + seq![last] =~= done.push(last));
    let r = read_pair(fields, v, &cs, start, n);
    proof {
        lemma_apply_push(f@, done, last);
    }
    r
}

/// Reads the `by`, `for`, `host` and `proto` parameters out of every
/// occurrence of a `Forwarded` header, given in the order received. Each
/// occurrence is split into hop sections at `,` and each section into pairs
/// at `;`; a pair counts when, trimmed, it is a key, `=` and a value without
/// `=`. When a key occurs more than once, the last occurrence wins; pairs
/// that match no key are ignored.
pub fn parse_forwarded_header<'a>(values: &Vec<&'a str>) -> (r: ForwardedHeaderFields<'a>)
    ensures
        r@ == parsed_fields(views_of(values@)),
{
    let mut fields = ForwardedHeaderFields { by: None, for_field: None, host: None, proto: None };
    let mut k: usize = 0;
    while k < values.len()
        invariant
            k <= values@.len(),
            fields@ == parsed_fields(views_of(values@.subrange(0, k as int))),
        decreases values@.len() - k,
    {
        let ghost pre = values@.subrange(0, k as int);
        let ghost next = values@.subrange(0, k + 1);
        assert(views_of(next).drop_last() =~= views_of(pre));
        assert(views_of(next).last() == values@[k as int]@);
        fields = read_value(fields, values[k]);
        k = k + 1;
    }
    assert(values@.subrange(0, k as int) =~= values@);
    fields
}

/// Reading the same header values twice gives equal fields.
pub proof fn lemma_parse_idempotent(a: Seq<&str>, b: Seq<&str>, r1: FieldsView, r2: FieldsView)
    requires
        views_of(a) == views_of(b),
        r1 == parsed_fields(views_of(a)),
        r2 == parsed_fields(views_of(b)),
    ensures
        r1 == r2,
{
}

} // verus!
