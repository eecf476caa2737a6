//! Text building blocks shared by the request builders: decimal rendering of
//! unsigned integers, the query-fragment encoder `join_vec`, and joining of
//! fragments with `&`.
use vstd::prelude::*;
use vstd::string::*;

verus! {

/// The character for a single decimal digit `d` (`0 <= d <= 9`).
pub open spec fn digit_char(d: nat) -> char {
    ((d + 48) as u8) as char
}

/// The decimal representation of `n`, most significant digit first.
pub open spec fn dec_str(n: nat) -> Seq<char>
    decreases n,
{
    if n < 10 {
        seq![digit_char(n)]
    } else {
        dec_str(n / 10).push(digit_char(n % 10))
    }
}

/// A value with a canonical textual form on the wire.
pub trait WireText {
    /// The canonical text of this value.
    spec fn wire_view(&self) -> Seq<char>;

    /// Render the canonical text.
    fn wire_text(&self) -> (s: String)
        ensures
            s@ == self.wire_view(),
    ;
}

fn digit_str(d: u32) -> (s: &'static str)
    requires
        d < 10,
    ensures
        s@ == seq![digit_char(d as nat)],
{
    proof {
        reveal_strlit("0");
        reveal_strlit("1");
        reveal_strlit("2");
        reveal_strlit("3");
        reveal_strlit("4");
        reveal_strlit("5");
        reveal_strlit("6");
        reveal_strlit("7");
        reveal_strlit("8");
        reveal_strlit("9");
    }
    match d {
        0 => "0",
        1 => "1",
        2 => "2",
        3 => "3",
        4 => "4",
        5 => "5",
        6 => "6",
        7 => "7",
        8 => "8",
        _ => "9",
    }
}

/// Render `n` in decimal.
pub fn u32_dec(n: u32) -> (s: String)
    ensures
        s@ == dec_str(n as nat),
    decreases n,
{
    if n < 10 {
        String::from_str(digit_str(n))
    } else {
        let head = u32_dec(n / 10);
        head.concat(digit_str(n % 10))
    }
}

impl WireText for u32 {
    open spec fn wire_view(&self) -> Seq<char> {
        dec_str(*self as nat)
    }

    fn wire_text(&self) -> (s: String) {
        u32_dec(*self)
    }
}

impl WireText for String {
    open spec fn wire_view(&self) -> Seq<char> {
        self@
    }

    fn wire_text(&self) -> (s: String) {
        self.clone()
    }
}

impl WireText for &str {
    open spec fn wire_view(&self) -> Seq<char> {
        self@
    }

    fn wire_text(&self) -> (s: String) {
        String::from_str(self)
    }
}

/// The fragments produced by prefixing each value's canonical text with `prepend`.
pub open spec fn spec_join_vec<T: WireText>(prepend: Seq<char>, values: Seq<T>) -> Seq<Seq<char>> {
    values.map_values(|v: T| prepend + v.wire_view())
}

/// Encode each value of `values`, in order, as the fragment
/// `prepend` + canonical text of the value.
pub fn join_vec<T: WireText>(prepend: &str, values: &Vec<T>) -> (r: Vec<String>)
    ensures
        r@.len() == values@.len(),
        forall|i: int| 0 <= i < r@.len() ==> r@[i]@ == prepend@ + values@[i].wire_view(),
{
    let mut r: Vec<String> = Vec::new();
    let mut idx: usize = 0;
    while idx < values.len()
        invariant
            idx <= values@.len(),
            r@.len() == idx,
            forall|i: int| 0 <= i < idx ==> r@[i]@ == prepend@ + values@[i].wire_view(),
        decreases values@.len() - idx,
    {
        let piece = String::from_str(prepend).concat(values[idx].wire_text().as_str());
        r.push(piece);
        idx = idx + 1;
    }
    r
}

/// Render `n` in decimal.
pub fn u64_dec(n: u64) -> (s: String)
    ensures
        s@ == dec_str(n as nat),
    decreases n,
{
    if n < 10 {
        String::from_str(digit_str(n as u32))
    } else {
        let head = u64_dec(n / 10);
        head.concat(digit_str((n % 10) as u32))
    }
}

/// The decimal representation of a signed integer: a leading `-` for a
/// negative value, plain digits otherwise.
pub open spec fn signed_dec_str(n: int) -> Seq<char> {
    if n < 0 {
        seq!['-'] + dec_str((-n) as nat)
    } else {
        dec_str(n as nat)
    }
}

/// Render `n` in decimal, with a leading `-` when negative.
pub fn i64_dec(n: i64) -> (s: String)
    ensures
        s@ == signed_dec_str(n as int),
{
    if n >= 0 {
        u64_dec(n as u64)
    } else {
        let magnitude: u64 = ((-(n + 1)) as u64) + 1;
        assert(magnitude as int == -(n as int));
        proof {
            reveal_strlit("-");
            assert("-"@ =~= seq!['-']);
        }
        String::from_str("-").concat(u64_dec(magnitude).as_str())
    }
}

/// Whether two text slices hold the same characters.
pub fn str_eq(a: &str, b: &str) -> (r: bool)
    ensures
        r == (a@ == b@),
{
    let la = a.unicode_len();
    let lb = b.unicode_len();
    if la != lb {
        return false;
    }
    let mut idx: usize = 0;
    while idx < la
        invariant
            la == a@.len(),
            la == b@.len(),
            idx <= la,
            forall|k: int| 0 <= k < idx ==> a@[k] == b@[k],
        decreases la - idx,
    {
        if a.get_char(idx) != b.get_char(idx) {
            return false;
        }
        idx = idx + 1;
    }
    proof {
        assert(a@ =~= b@);
    }
    true
}

/// Append one character to `s`.
///
/// Relies on String::push: appends exactly that character.
#[verifier::external_body]
pub(crate) fn push_char(s: &mut String, c: char)
    ensures
        final(s)@ == old(s)@.push(c),
{
    s.push(c)
}

/// The characters of `s`, one vector entry per character.
pub fn str_to_chars(s: &str) -> (v: Vec<char>)
    ensures
        v@ == s@,
{
    let n = s.unicode_len();
    let mut v: Vec<char> = Vec::new();
    let mut idx: usize = 0;
    while idx < n
        invariant
            n == s@.len(),
            idx <= n,
            v@ == s@.take(idx as int),
        decreases n - idx,
    {
        let c = s.get_char(idx);
        v.push(c);
        proof {
            assert(v@ =~= s@.take(idx as int + 1));
        }
        idx = idx + 1;
    }
    proof {
        assert(s@.take(n as int) =~= s@);
    }
    v
}

/// The views of a sequence of strings.
pub open spec fn views_of(ss: Seq<String>) -> Seq<Seq<char>> {
    ss.map_values(|s: String| s@)
}

/// The fragments joined by single `&` separators; empty input gives empty text.
pub open spec fn join_amp(fs: Seq<Seq<char>>) -> Seq<char>
    decreases fs.len(),
{
    if fs.len() == 0 {
        Seq::empty()
    } else if fs.len() == 1 {
        fs[0]
    } else {
        fs[0] + seq!['&'] + join_amp(fs.drop_first())
    }
}

/// Appending one more fragment extends the joined text by `&` and the fragment.
pub proof fn lemma_join_amp_push(fs: Seq<Seq<char>>, f: Seq<char>)
    requires
        fs.len() >= 1,
    ensures
        join_amp(fs.push(f)) == join_amp(fs) + seq!['&'] + f,
    decreases fs.len(),
{
    if fs.len() == 1 {
        let g = fs.push(f);
        assert(g.drop_first() =~= seq![f]);
        assert(join_amp(seq![f]) == seq![f][0]);
        assert(join_amp(g) == g[0] + seq!['&'] + f);
        assert(g[0] == fs[0]);
        assert(join_amp(fs.push(f)) =~= join_amp(fs) + seq!['&'] + f);
    } else {
        lemma_join_amp_push(fs.drop_first(), f);
        assert(fs.push(f).drop_first() =~= fs.drop_first().push(f));
        assert(join_amp(fs.push(f)) =~= join_amp(fs) + seq!['&'] + f);
    }
}

/// Join the strings of `segs` with single `&` separators.
pub fn join_segments(segs: &Vec<String>) -> (r: String)
    ensures
        r@ == join_amp(views_of(segs@)),
{
    let mut acc = String::new();
    if segs.len() == 0 {
        assert(views_of(segs@).len() == 0);
        return acc;
    }
    acc = acc.concat(segs[0].as_str());
    let mut idx: usize = 1;
    while idx < segs.len()
        invariant
            1 <= idx <= segs@.len(),
            acc@ == join_amp(views_of(segs@.take(idx as int))),
        decreases segs@.len() - idx,
    {
        proof {
            lemma_join_amp_push(views_of(segs@.take(idx as int)), segs@[idx as int]@);
            assert(views_of(segs@.take(idx as int + 1)) =~= views_of(segs@.take(idx as int)).push(
                segs@[idx as int]@,
            ));
        }
        acc = acc.concat("&");
        acc = acc.concat(segs[idx].as_str());
        proof {
            reveal_strlit("&");
            assert("&"@ =~= seq!['&']);
        }
        idx = idx + 1;
    }
    proof {
        assert(segs@.take(segs@.len() as int) =~= segs@);
    }
    acc
}

} // verus!
