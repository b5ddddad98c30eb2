//! Version identities: numbered releases and locally stashed tags.

use vstd::prelude::*;
use vstd::string::*;

verus! {

/// What a `VersionSpec` stands for in contracts.
pub enum VersionView {
    /// A numbered release.
    Release(u32),
    /// A stash tag.
    Stash(Seq<char>),
}

/// The version of a component: a release number assigned by the remote store, or a
/// tag chosen by the user for a locally stashed build.
#[derive(Debug, PartialEq, Eq)]
pub enum VersionSpec {
    /// A numbered release.
    Release(u32),
    /// A stash tag.
    Stash(String),
}

impl View for VersionSpec {
    type V = VersionView;

    open spec fn view(&self) -> VersionView {
        match self {
            VersionSpec::Release(n) => VersionView::Release(*n),
            VersionSpec::Stash(tag) => VersionView::Stash(tag@),
        }
    }
}

/// Whether `c` is one of the decimal digits `0` to `9`.
pub open spec fn is_digit(c: char) -> bool {
    48 <= c as u32 && c as u32 <= 57
}

/// The number that a run of decimal digits writes.
pub open spec fn digits_value(s: Seq<char>) -> nat
    decreases s.len(),
{
    if s.len() == 0 {
        0
    } else {
        digits_value(s.drop_last()) * 10 + (s.last() as u32 - 48) as nat
    }
}

/// `s` without the `+` that it may start with.
pub open spec fn unsigned_part(s: Seq<char>) -> Seq<char> {
    if s.len() > 0 && s[0] == '+' {
        s.subrange(1, s.len() as int)
    } else {
        s
    }
}

/// The 32-bit number that `s` writes in decimal: an optional `+`, then one or more
/// digits, the whole no larger than `u32::MAX`. Anything else writes none.
pub open spec fn decimal_u32(s: Seq<char>) -> Option<u32> {
    let d = unsigned_part(s);
    if d.len() > 0 && (forall|i: int| 0 <= i < d.len() ==> is_digit(#[trigger] d[i])) && digits_value(d)
        <= u32::MAX {
        Some(digits_value(d) as u32)
    } else {
        None
    }
}

/// The decimal digits of `n`, without leading zeros.
pub open spec fn decimal(n: nat) -> Seq<char>
    decreases n,
{
    if n < 10 {
        seq![((48 + n) as u8) as char]
    } else {
        decimal(n / 10).push(((48 + n % 10) as u8) as char)
    }
}

proof fn lemma_digits_grow(d: Seq<char>, k: int)
    requires
        0 <= k <= d.len(),
    ensures
        digits_value(d.take(k)) <= digits_value(d),
    decreases d.len() - k,
{
    if k < d.len() {
        lemma_digits_grow(d, k + 1);
        assert(d.take(k + 1).drop_last() =~= d.take(k));
    } else {
        assert(d.take(k) =~= d);
    }
}

/// Reads a 32-bit number written in decimal.
pub fn parse_u32(text: &str) -> (r: Option<u32>)
    ensures
        r == decimal_u32(text@),
{
    let len = text.unicode_len();
    let start: usize = if len > 0 && text.get_char(0) == '+' {
        1
    } else {
        0
    };
    if start >= len {
        return None;
    }
    let ghost d = unsigned_part(text@);
    let mut acc: u64 = 0;
    let mut i: usize = start;
    proof {
        assert(d =~= text@.subrange(start as int, len as int));
        assert(d.take(0) =~= Seq::<char>::empty());
    }
    while i < len
        invariant
            start <= i <= len,
            len == text@.len(),
            d == unsigned_part(text@),
            d == text@.subrange(start as int, len as int),
            forall|k: int| 0 <= k < i - start ==> is_digit(#[trigger] d[k]),
            acc == digits_value(d.take(i - start)),
            acc <= u32::MAX,
        decreases len - i,
    {
        let c = text.get_char(i);
        let code: u32 = c as u32;
        if code < 48 || code > 57 {
            proof {
                assert(d[i - start] == c);
                assert(!is_digit(d[i - start]));
            }
            return None;
        }
        let next: u64 = acc * 10 + (code - 48) as u64;
        proof {
            assert(d[i - start] == c);
            assert(d.take(i - start + 1).drop_last() =~= d.take(i - start));
            assert(d.take(i - start + 1).last() == c);
            assert(next == digits_value(d.take(i - start + 1)));
        }
        if next > 4_294_967_295 {
            proof {
                lemma_digits_grow(d, i - start + 1);
            }
            return None;
        }
        acc = next;
        i += 1;
    }
    proof {
        assert(d.take(i - start) =~= d);
    }
    Some(acc as u32)
}

fn digit_text(d: u64) -> (r: &'static str)
    requires
        d < 10,
    ensures
        r@ == seq![((48 + d) as u8) as char],
{
    proof {
        reveal_strlit("0");
        reveal_strlit("1");
        reveal_strlit("2");
        reveal_strlit("3");
        reveal_strlit("4");
        reveal_strlit("5");
        reveal_strlit("6");
        reveal_strlit("7");
        reveal_strlit("8");
        reveal_strlit("9");
    }
    let r = if d == 0 {
        "0"
    } else if d == 1 {
        "1"
    } else if d == 2 {
        "2"
    } else if d == 3 {
        "3"
    } else if d == 4 {
        "4"
    } else if d == 5 {
        "5"
    } else if d == 6 {
        "6"
    } else if d == 7 {
        "7"
    } else if d == 8 {
        "8"
    } else {
        "9"
    };
    proof {
        assert(r@ =~= seq![((48 + d) as u8) as char]);
    }
    r
}

/// Writes a number in decimal, without sign or leading zeros.
pub fn decimal_text(n: u64) -> (r: String)
    ensures
        r@ == decimal(n as nat),
    decreases n,
{
    if n < 10 {
        String::from_str(digit_text(n))
    } else {
        let mut r = decimal_text(n / 10);
        let last = digit_text(n % 10);
        proof {
            assert(r@ + last@ =~= r@.push(last@[0]));
        }
        r.append(last);
        r
    }
}

/// The version that a piece of text asks for: a release where the text is a
/// decimal number, a stash tag of that text otherwise.
pub open spec fn version_of_text(s: Seq<char>) -> VersionView {
    match decimal_u32(s) {
        Some(n) => VersionView::Release(n),
        None => VersionView::Stash(s),
    }
}

/// How a version is written: a release as its decimal digits, a stash as its tag.
pub open spec fn version_text(v: VersionView) -> Seq<char> {
    match v {
        VersionView::Release(n) => decimal(n as nat),
        VersionView::Stash(tag) => tag,
    }
}

impl VersionSpec {
    /// A copy of this version.
    pub fn duplicate(&self) -> (r: VersionSpec)
        ensures
            r@ == self@,
    {
        match self {
            VersionSpec::Release(n) => VersionSpec::Release(*n),
            VersionSpec::Stash(tag) => VersionSpec::Stash(tag.clone()),
        }
    }

    /// Whether two versions are the same release or the same stash tag.
    pub fn same(&self, other: &VersionSpec) -> (b: bool)
        ensures
            b == (self@ == other@),
    {
        match (self, other) {
            (VersionSpec::Release(a), VersionSpec::Release(b)) => *a == *b,
            (VersionSpec::Stash(a), VersionSpec::Stash(b)) => *a == *b,
            _ => false,
        }
    }

    /// Whether this is a stash tag.
    pub fn is_stash(&self) -> (b: bool)
        ensures
            b == (self@ is Stash),
    {
        match self {
            VersionSpec::Release(_) => false,
            VersionSpec::Stash(_) => true,
        }
    }

    /// Reads a version from text: a decimal number is a release, anything else is a
    /// stash tag.
    pub fn from_text(text: &str) -> (r: VersionSpec)
        ensures
            r@ == version_of_text(text@),
    {
        match parse_u32(text) {
            Some(n) => VersionSpec::Release(n),
            None => VersionSpec::Stash(String::from_str(text)),
        }
    }

    /// Writes the version as text.
    pub fn text(&self) -> (r: String)
        ensures
            r@ == version_text(self@),
    {
        match self {
            VersionSpec::Release(n) => decimal_text(*n as u64),
            VersionSpec::Stash(tag) => tag.clone(),
        }
    }
}

} // verus!
