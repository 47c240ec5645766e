//! Character-level helpers shared by the builders and the renderer: strings as
//! sequences of characters, decimal numerals and repeated fragments.

use vstd::prelude::*;

verus! {

/// The standard library's `String::push`. Its contract is taken on trust from its
/// documentation: the call appends the character `c` to the end of the string, so
/// the text after the call is the text before it with `c` behind it.
pub assume_specification[ std::string::String::push ](s: &mut std::string::String, c: char)
    ensures
        final(s)@ == old(s)@.push(c),
;

/// The character that stands for the decimal digit `d`.
pub open spec fn digit(d: nat) -> char {
    if d == 0 {
        '0'
    } else if d == 1 {
        '1'
    } else if d == 2 {
        '2'
    } else if d == 3 {
        '3'
    } else if d == 4 {
        '4'
    } else if d == 5 {
        '5'
    } else if d == 6 {
        '6'
    } else if d == 7 {
        '7'
    } else if d == 8 {
        '8'
    } else {
        '9'
    }
}

/// The decimal numeral of `n`, most significant digit first, without leading zeros.
pub open spec fn decimal(n: nat) -> Seq<char>
    decreases n,
{
    if n < 10 {
        seq![digit(n)]
    } else {
        decimal(n / 10).push(digit(n % 10))
    }
}

/// The decimal numeral of a signed number: a minus sign before the numeral of the
/// magnitude when the number is negative.
pub open spec fn signed_decimal(i: int) -> Seq<char> {
    if i < 0 {
        seq!['-'] + decimal((-i) as nat)
    } else {
        decimal(i as nat)
    }
}

/// `piece` written `n` times in a row.
pub open spec fn repeat(piece: Seq<char>, n: nat) -> Seq<char>
    decreases n,
{
    if n == 0 {
        Seq::empty()
    } else {
        repeat(piece, (n - 1) as nat) + piece
    }
}

/// The least position at which `x` stands in `s`, or the length of `s` where it
/// stands nowhere.
pub open spec fn first_position<T>(s: Seq<T>, x: T) -> nat
    decreases s.len(),
{
    if s.len() == 0 {
        0
    } else if s.first() == x {
        0
    } else {
        1 + first_position(s.drop_first(), x)
    }
}

/// `first_position` is the position of the first occurrence.
pub proof fn lemma_first_position<T>(s: Seq<T>, x: T)
    ensures
        first_position(s, x) <= s.len(),
        first_position(s, x) < s.len() ==> s[first_position(s, x) as int] == x,
        forall|j: int| 0 <= j < first_position(s, x) ==> s[j] != x,
    decreases s.len(),
{
    if s.len() != 0 && s.first() != x {
        let rest = s.drop_first();
        lemma_first_position(rest, x);
        assert forall|j: int| 0 <= j < first_position(s, x) implies s[j] != x by {
            if j > 0 {
                assert(rest[j - 1] == s[j]);
            }
        }
    }
}

/// A position with `x` at it and without `x` before it is the first position.
pub proof fn lemma_first_position_is<T>(s: Seq<T>, x: T, k: nat)
    requires
        k <= s.len(),
        k < s.len() ==> s[k as int] == x,
        forall|j: int| 0 <= j < k ==> s[j] != x,
    ensures
        first_position(s, x) == k,
{
    lemma_first_position(s, x);
    let f = first_position(s, x);
    if f < k {
        assert(s[f as int] != x);
    } else if f > k {
        assert(s[k as int] != x);
    }
}

/// The pieces into which the separator `sep` cuts `s`: what stands before its
/// first occurrence, then the pieces of what stands after it. A text without the
/// separator is one piece, the empty text too.
pub open spec fn split(s: Seq<char>, sep: char) -> Seq<Seq<char>>
    decreases s.len(),
{
    let k = first_position(s, sep);
    if k >= s.len() {
        seq![s]
    } else {
        seq![s.take(k as int)] + split(s.skip(k as int + 1), sep)
    }
}

/// Every character of a piece is a character of the text that was cut.
pub proof fn lemma_split_keeps_characters(s: Seq<char>, sep: char)
    ensures
        forall|i: int, j: int|
            0 <= i < split(s, sep).len() && 0 <= j < split(s, sep)[i].len() ==> s.contains(
                #[trigger] split(s, sep)[i][j],
            ),
    decreases s.len(),
{
    let k = first_position(s, sep);
    lemma_first_position(s, sep);
    if k < s.len() {
        let head = s.take(k as int);
        let tail = s.skip(k as int + 1);
        lemma_split_keeps_characters(tail, sep);
        assert forall|i: int, j: int|
            0 <= i < split(s, sep).len() && 0 <= j < split(s, sep)[i].len() implies s.contains(
            #[trigger] split(s, sep)[i][j],
        ) by {
            if i == 0 {
                assert(split(s, sep)[0] == head);
                assert(head[j] == s[j]);
            } else {
                assert(split(s, sep)[i] == split(tail, sep)[i - 1]);
                let c = split(tail, sep)[i - 1][j];
                assert(tail.contains(c));
                let at = choose|at: int| 0 <= at < tail.len() && tail[at] == c;
                assert(s[k + 1 + at] == c);
            }
        }
    } else {
        assert forall|i: int, j: int|
            0 <= i < split(s, sep).len() && 0 <= j < split(s, sep)[i].len() implies s.contains(
            #[trigger] split(s, sep)[i][j],
        ) by {
            assert(split(s, sep)[0] == s);
        }
    }
}

/// The pieces written one after another with `sep` between neighbours.
pub open spec fn join(pieces: Seq<Seq<char>>, sep: Seq<char>) -> Seq<char>
    decreases pieces.len(),
{
    if pieces.len() == 0 {
        Seq::empty()
    } else if pieces.len() == 1 {
        pieces[0]
    } else {
        join(pieces.drop_last(), sep) + sep + pieces.last()
    }
}

/// A numeral is never empty and holds digits only.
pub proof fn lemma_decimal_digits(n: nat)
    ensures
        decimal(n).len() >= 1,
        forall|i: int| 0 <= i < decimal(n).len() ==> '0' <= #[trigger] decimal(n)[i] <= '9',
    decreases n,
{
    if n >= 10 {
        lemma_decimal_digits(n / 10);
    }
}

/// Different numbers have different numerals.
pub proof fn lemma_decimal_injective(a: nat, b: nat)
    requires
        decimal(a) == decimal(b),
    ensures
        a == b,
    decreases a,
{
    lemma_decimal_digits(a / 10);
    lemma_decimal_digits(b / 10);
    if a < 10 && b < 10 {
        assert(decimal(a)[0] == digit(a));
        assert(decimal(b)[0] == digit(b));
    } else if a >= 10 && b >= 10 {
        let x = decimal(a / 10);
        let y = decimal(b / 10);
        assert(decimal(a).drop_last() == x);
        assert(decimal(b).drop_last() == y);
        assert(decimal(a).last() == digit(a % 10));
        assert(decimal(b).last() == digit(b % 10));
        lemma_decimal_injective(a / 10, b / 10);
        assert(a % 10 == b % 10);
    } else if a < 10 {
        assert(decimal(a).len() == 1);
        assert(decimal(b).len() == decimal(b / 10).len() + 1);
    } else {
        assert(decimal(b).len() == 1);
        assert(decimal(a).len() == decimal(a / 10).len() + 1);
    }
}

fn digit_char(d: u8) -> (c: char)
    requires
        d < 10,
    ensures
        c == digit(d as nat),
{
    if d == 0 {
        '0'
    } else if d == 1 {
        '1'
    } else if d == 2 {
        '2'
    } else if d == 3 {
        '3'
    } else if d == 4 {
        '4'
    } else if d == 5 {
        '5'
    } else if d == 6 {
        '6'
    } else if d == 7 {
        '7'
    } else if d == 8 {
        '8'
    } else {
        '9'
    }
}

/// Appends the decimal numeral of `n` to `out`.
pub(crate) fn push_decimal(out: &mut String, n: u64)
    ensures
        final(out)@ == old(out)@ + decimal(n as nat),
    decreases n,
{
    if n >= 10 {
        push_decimal(out, n / 10);
    }
    out.push(digit_char((n % 10) as u8));
    proof {
        if n >= 10 {
            assert(old(out)@ + decimal(n as nat) =~= (old(out)@ + decimal((n / 10) as nat)).push(
                digit((n % 10) as nat),
            ));
        } else {
            assert(old(out)@ + decimal(n as nat) =~= old(out)@.push(digit(n as nat)));
        }
    }
}

/// Appends the decimal numeral of the signed number `i` to `out`.
pub(crate) fn push_signed_decimal(out: &mut String, i: i64)
    ensures
        final(out)@ == old(out)@ + signed_decimal(i as int),
{
    if i < 0 {
        out.push('-');
        let magnitude: u64 = ((-(i + 1)) as u64) + 1;
        push_decimal(out, magnitude);
        assert(old(out)@ + signed_decimal(i as int) =~= old(out)@.push('-') + decimal(
            magnitude as nat,
        ));
    } else {
        push_decimal(out, i as u64);
    }
}

/// Appends `piece` to `out`, `n` times.
pub(crate) fn push_repeated(out: &mut String, piece: &str, n: usize)
    ensures
        final(out)@ == old(out)@ + repeat(piece@, n as nat),
{
    let mut i: usize = 0;
    while i < n
        invariant
            i <= n,
            out@ == old(out)@ + repeat(piece@, i as nat),
        decreases n - i,
    {
        out.append(piece);
        i += 1;
        assert(out@ =~= old(out)@ + repeat(piece@, i as nat));
    }
}

/// Text that can be taken over as an owned string: a string slice or a string.
pub trait IntoString: Sized {
    /// The characters of the text.
    spec fn text(&self) -> Seq<char>;

    /// The text as an owned string.
    fn into_string(self) -> (s: String)
        ensures
            s@ == self.text(),
    ;
}

impl<'a> IntoString for &'a str {
    open spec fn text(&self) -> Seq<char> {
        self@
    }

    fn into_string(self) -> (s: String) {
        self.to_owned()
    }
}

impl IntoString for String {
    open spec fn text(&self) -> Seq<char> {
        self@
    }

    fn into_string(self) -> (s: String) {
        self
    }
}

/// The contents of a sequence of character vectors.
pub open spec fn words(vectors: Seq<Vec<char>>) -> Seq<Seq<char>> {
    vectors.map_values(|v: Vec<char>| v@)
}

/// Cuts `s` at every `sep`.
pub(crate) fn split_chars(s: &Vec<char>, sep: char) -> (pieces: Vec<Vec<char>>)
    ensures
        words(pieces@) == split(s@, sep),
{
    let mut pieces: Vec<Vec<char>> = Vec::new();
    let mut piece: Vec<char> = Vec::new();
    let mut start: usize = 0;
    let mut i: usize = 0;
    proof {
        assert(s@.skip(0) =~= s@);
        assert(words(pieces@) + split(s@, sep) =~= split(s@, sep));
        assert(piece@ =~= s@.subrange(0, 0));
    }
    while i < s.len()
        invariant
            start <= i <= s.len(),
            piece@ == s@.subrange(start as int, i as int),
            forall|j: int| start <= j < i ==> s@[j] != sep,
            split(s@, sep) == words(pieces@) + split(s@.skip(start as int), sep),
        decreases s.len() - i,
    {
        let c = s[i];
        if c == sep {
            proof {
                let rest = s@.skip(start as int);
                lemma_first_position_is(rest, sep, (i - start) as nat);
                assert(rest.take(i - start) =~= piece@);
                assert(rest.skip(i - start + 1) =~= s@.skip(i + 1));
                assert(words(pieces@.push(piece)) =~= words(pieces@) + seq![piece@]);
            }
            pieces.push(piece);
            piece = Vec::new();
            start = i + 1;
            i += 1;
            assert(piece@ =~= s@.subrange(start as int, i as int));
        } else {
            piece.push(c);
            i += 1;
            assert(piece@ =~= s@.subrange(start as int, i as int));
        }
    }
    proof {
        let rest = s@.skip(start as int);
        lemma_first_position_is(rest, sep, rest.len());
        assert(rest =~= piece@);
        assert(words(pieces@.push(piece)) =~= words(pieces@) + seq![piece@]);
    }
    pieces.push(piece);
    pieces
}

/// Appends the characters of `s` from position `from` on to `out`.
pub(crate) fn push_chars(out: &mut String, s: &Vec<char>, from: usize)
    requires
        from <= s.len(),
    ensures
        final(out)@ == old(out)@ + s@.skip(from as int),
{
    let mut i: usize = from;
    while i < s.len()
        invariant
            from <= i <= s.len(),
            out@ == old(out)@ + s@.subrange(from as int, i as int),
        decreases s.len() - i,
    {
        out.push(s[i]);
        i += 1;
        assert(out@ =~= old(out)@ + s@.subrange(from as int, i as int));
    }
    assert(out@ =~= old(out)@ + s@.skip(from as int));
}

/// The first `until` characters of `s` as a string.
pub(crate) fn string_of_prefix(s: &Vec<char>, until: usize) -> (out: String)
    requires
        until <= s.len(),
    ensures
        out@ == s@.take(until as int),
{
    let mut out = String::new();
    let mut i: usize = 0;
    while i < until
        invariant
            i <= until <= s.len(),
            out@ == s@.take(i as int),
        decreases until - i,
    {
        out.push(s[i]);
        i += 1;
        assert(out@ =~= s@.take(i as int));
    }
    out
}

/// The characters of `s`, in order.
pub(crate) fn to_chars(s: &str) -> (v: Vec<char>)
    ensures
        v@ == s@,
{
    let mut v: Vec<char> = Vec::new();
    for c in it: s.chars()
        invariant
            v@ == it.seq().take(it.index() as int),
            it.seq() == s@,
    {
        v.push(c);
    }
    v
}

} // verus!
