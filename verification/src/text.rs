//! Source positions: a half-open byte range (`Span`) and a value annotated
//! with one (`Spanned`).

use vstd::prelude::*;
use vstd::string::StringExecFns;

verus! {

/// A half-open range `start..end` of positions in some input, with
/// `start >= 1`; the reserved value `0..0` is the dummy span of data that
/// has no source position.
#[derive(Clone, Copy, PartialEq, Eq, Structural, Debug)]
pub struct Span {
    start: usize,
    end: usize,
}

impl Span {
    /// The first position covered.
    pub closed spec fn spec_start(self) -> usize {
        self.start
    }

    /// One past the last position covered.
    pub closed spec fn spec_end(self) -> usize {
        self.end
    }

    /// Whether this is the dummy span.
    pub open spec fn spec_is_dummy(self) -> bool {
        self.spec_start() == 0 && self.spec_end() == 0
    }

    /// Every span is either the dummy or a non-empty-start range with
    /// `1 <= start <= end`.
    pub open spec fn wf(self) -> bool {
        self.spec_is_dummy() || (1 <= self.spec_start() && self.spec_start() <= self.spec_end())
    }

    /// The span covering `start..end`.
    pub fn new(start: usize, end: usize) -> (r: Span)
        requires
            1 <= start,
            start <= end,
        ensures
            r.spec_start() == start,
            r.spec_end() == end,
            r.wf(),
    {
        Span { start, end }
    }

    /// The dummy span.
    pub fn dummy() -> (r: Span)
        ensures
            r.spec_is_dummy(),
            r.wf(),
    {
        Span { start: 0, end: 0 }
    }

    /// Whether this is the dummy span.
    pub fn is_dummy(self) -> (r: bool)
        ensures
            r == self.spec_is_dummy(),
    {
        self == Span::dummy()
    }

    /// The first position covered.
    pub fn start(self) -> (r: usize)
        ensures
            r == self.spec_start(),
    {
        self.start
    }

    /// One past the last position covered.
    pub fn end(self) -> (r: usize)
        ensures
            r == self.spec_end(),
    {
        self.end
    }

    /// Whether `pos` lies inside the range.
    pub fn contains(self, pos: usize) -> (r: bool)
        ensures
            r == (self.spec_start() <= pos && pos < self.spec_end()),
    {
        self.start <= pos && pos < self.end
    }

    /// The merge of two spans: the dummy is the identity, and two real
    /// spans merge to the smallest range covering both.
    pub closed spec fn spec_merge(self, other: Span) -> Span {
        if other.spec_is_dummy() {
            self
        } else if self.spec_is_dummy() {
            other
        } else {
            Span {
                start: if self.start <= other.start {
                    self.start
                } else {
                    other.start
                },
                end: if self.end >= other.end {
                    self.end
                } else {
                    other.end
                },
            }
        }
    }

    /// The smallest span covering both `self` and `other`; a dummy operand
    /// leaves the other side unchanged.
    pub fn merge(self, other: Span) -> (r: Span)
        requires
            self.wf(),
            other.wf(),
        ensures
            r == self.spec_merge(other),
            r.wf(),
            other.spec_is_dummy() ==> r == self,
            self.spec_is_dummy() && !other.spec_is_dummy() ==> r == other,
            !self.spec_is_dummy() && !other.spec_is_dummy() ==> r.spec_start() == vstd::math::min(
                self.spec_start() as int,
                other.spec_start() as int,
            ) && r.spec_end() == vstd::math::max(self.spec_end() as int, other.spec_end() as int),
    {
        if other.is_dummy() {
            return self;
        } else if self.is_dummy() {
            return other;
        }
        let start = if self.start <= other.start {
            self.start
        } else {
            other.start
        };
        let end = if self.end >= other.end {
            self.end
        } else {
            other.end
        };
        Span { start, end }
    }

    /// Grow the span to cover position `pos`.  Position `0` and spans that
    /// already cover `pos` are left as they are; the dummy span becomes
    /// the single-position span at `pos`.
    pub fn extend(self, pos: usize) -> (r: Span)
        requires
            self.wf(),
            pos < usize::MAX,
        ensures
            r.wf(),
            pos == 0 ==> r == self,
            pos != 0 && self.spec_is_dummy() ==> r.spec_start() == pos && r.spec_end() == pos + 1,
            pos != 0 && !self.spec_is_dummy() && pos < self.spec_start() ==> r.spec_start() == pos
                && r.spec_end() == self.spec_end(),
            pos != 0 && !self.spec_is_dummy() && pos >= self.spec_end() ==> r.spec_start()
                == self.spec_start() && r.spec_end() == pos + 1,
            pos != 0 && !self.spec_is_dummy() && self.spec_start() <= pos && pos < self.spec_end()
                ==> r == self,
    {
        if pos == 0 {
            return self;
        } else if self.is_dummy() {
            return Span::new(pos, pos + 1);
        }
        let mut s = self;
        if pos < s.start {
            s.start = pos;
        } else if pos >= s.end {
            s.end = pos + 1;
        }
        s
    }

    /// Move a real span `offset` positions to the right; the dummy span is
    /// unchanged.
    pub fn shift(self, offset: usize) -> (r: Span)
        requires
            self.wf(),
            self.spec_is_dummy() || self.spec_end() + offset <= usize::MAX,
        ensures
            r.wf(),
            self.spec_is_dummy() ==> r == self,
            !self.spec_is_dummy() ==> r.spec_start() == self.spec_start() + offset
                && r.spec_end() == self.spec_end() + offset,
    {
        let mut s = self;
        if s.is_dummy() {
            return s;
        }
        s.start = s.start + offset;
        s.end = s.end + offset;
        s
    }

    /// The rendering of this span: `<*>` for the dummy span, the start
    /// position alone for a range covering at most one position, and
    /// `start..end` otherwise.
    pub fn display_string(self) -> (r: String)
        requires
            self.wf(),
        ensures
            self.spec_is_dummy() ==> r@ == seq!['<', '*', '>'],
            !self.spec_is_dummy() && self.spec_end() - self.spec_start() <= 1 ==> r@
                == spec_decimal(self.spec_start() as nat),
            !self.spec_is_dummy() && self.spec_end() - self.spec_start() > 1 ==> r@ == spec_decimal(
                self.spec_start() as nat,
            ) + seq!['.', '.'] + spec_decimal(self.spec_end() as nat),
    {
        if self.is_dummy() {
            proof {
                reveal_strlit("<*>");
                assert("<*>"@ =~= seq!['<', '*', '>']);
            }
            String::from_str("<*>")
        } else if self.end - self.start <= 1 {
            decimal_string(self.start)
        } else {
            let mut r = decimal_string(self.start);
            proof {
                reveal_strlit("..");
            }
            r.append("..");
            let end = decimal_string(self.end);
            r.append(end.as_str());
            proof {
                assert(r@ =~= spec_decimal(self.spec_start() as nat) + seq!['.', '.']
                    + spec_decimal(self.spec_end() as nat));
            }
            r
        }
    }

    /// Attach this span to a value.
    pub fn with<T>(self, data: T) -> (r: Spanned<T>)
        ensures
            r.data == data,
            r.span == self,
    {
        Spanned::new(data, self)
    }
}

/// The decimal digit characters of `n`, most significant first.
pub open spec fn spec_decimal(n: nat) -> Seq<char>
    decreases n,
{
    if n < 10 {
        seq![spec_digit(n)]
    } else {
        spec_decimal(n / 10).push(spec_digit(n % 10))
    }
}

/// The uppercase hexadecimal digit characters of `n`, most significant
/// first.
pub open spec fn spec_hex(n: nat) -> Seq<char>
    decreases n,
{
    if n < 16 {
        seq![spec_digit(n)]
    } else {
        spec_hex(n / 16).push(spec_digit(n % 16))
    }
}

/// The character for one digit value below sixteen.
pub open spec fn spec_digit(d: nat) -> char {
    if d == 0 {
        '0'
    } else if d == 1 {
        '1'
    } else if d == 2 {
        '2'
    } else if d == 3 {
        '3'
    } else if d == 4 {
        '4'
    } else if d == 5 {
        '5'
    } else if d == 6 {
        '6'
    } else if d == 7 {
        '7'
    } else if d == 8 {
        '8'
    } else if d == 9 {
        '9'
    } else if d == 10 {
        'A'
    } else if d == 11 {
        'B'
    } else if d == 12 {
        'C'
    } else if d == 13 {
        'D'
    } else if d == 14 {
        'E'
    } else {
        'F'
    }
}

/// The one-character string for a digit value below sixteen.
fn digit_str(d: u32) -> (r: &'static str)
    requires
        d < 16,
    ensures
        r@ == seq![spec_digit(d as nat)],
{
    if d == 0 {
        proof {
            reveal_strlit("0");
            assert("0"@ =~= seq![spec_digit(0)]);
        }
        "0"
    } else if d == 1 {
        proof {
            reveal_strlit("1");
            assert("1"@ =~= seq![spec_digit(1)]);
        }
        "1"
    } else if d == 2 {
        proof {
            reveal_strlit("2");
            assert("2"@ =~= seq![spec_digit(2)]);
        }
        "2"
    } else if d == 3 {
        proof {
            reveal_strlit("3");
            assert("3"@ =~= seq![spec_digit(3)]);
        }
        "3"
    } else if d == 4 {
        proof {
            reveal_strlit("4");
            assert("4"@ =~= seq![spec_digit(4)]);
        }
        "4"
    } else if d == 5 {
        proof {
            reveal_strlit("5");
            assert("5"@ =~= seq![spec_digit(5)]);
        }
        "5"
    } else if d == 6 {
        proof {
            reveal_strlit("6");
            assert("6"@ =~= seq![spec_digit(6)]);
        }
        "6"
    } else if d == 7 {
        proof {
            reveal_strlit("7");
            assert("7"@ =~= seq![spec_digit(7)]);
        }
        "7"
    } else if d == 8 {
        proof {
            reveal_strlit("8");
            assert("8"@ =~= seq![spec_digit(8)]);
        }
        "8"
    } else if d == 9 {
        proof {
            reveal_strlit("9");
            assert("9"@ =~= seq![spec_digit(9)]);
        }
        "9"
    } else if d == 10 {
        proof {
            reveal_strlit("A");
            assert("A"@ =~= seq![spec_digit(10)]);
        }
        "A"
    } else if d == 11 {
        proof {
            reveal_strlit("B");
            assert("B"@ =~= seq![spec_digit(11)]);
        }
        "B"
    } else if d == 12 {
        proof {
            reveal_strlit("C");
            assert("C"@ =~= seq![spec_digit(12)]);
        }
        "C"
    } else if d == 13 {
        proof {
            reveal_strlit("D");
            assert("D"@ =~= seq![spec_digit(13)]);
        }
        "D"
    } else if d == 14 {
        proof {
            reveal_strlit("E");
            assert("E"@ =~= seq![spec_digit(14)]);
        }
        "E"
    } else {
        proof {
            reveal_strlit("F");
            assert("F"@ =~= seq![spec_digit(15)]);
        }
        "F"
    }
}

/// The decimal rendering of `n`.
pub fn decimal_string(n: usize) -> (r: String)
    ensures
        r@ == spec_decimal(n as nat),
    decreases n,
{
    if n < 10 {
        String::from_str(digit_str((n % 10) as u32))
    } else {
        proof {
            vstd::arithmetic::div_mod::lemma_div_decreases(n as int, 10);
            vstd::arithmetic::div_mod::lemma_mod_division_less_than_divisor(n as int, 10);
        }
        let mut r = decimal_string(n / 10);
        r.append(digit_str((n % 10) as u32));
        proof {
            assert(r@ =~= spec_decimal(n as nat));
        }
        r
    }
}

/// The uppercase hexadecimal rendering of `n`, without a prefix.
pub fn hex_string(n: u32) -> (r: String)
    ensures
        r@ == spec_hex(n as nat),
    decreases n,
{
    if n < 16 {
        String::from_str(digit_str(n % 16))
    } else {
        proof {
            vstd::arithmetic::div_mod::lemma_div_decreases(n as int, 16);
            vstd::arithmetic::div_mod::lemma_mod_division_less_than_divisor(n as int, 16);
        }
        let mut r = hex_string(n / 16);
        r.append(digit_str(n % 16));
        proof {
            assert(r@ =~= spec_hex(n as nat));
        }
        r
    }
}

/// A value together with the span of input it came from.
#[derive(Clone, Copy, Debug)]
pub struct Spanned<T> {
    pub data: T,
    pub span: Span,
}

impl<T> Spanned<T> {
    /// Pair a value with a span.
    pub fn new(data: T, span: Span) -> (r: Spanned<T>)
        ensures
            r.data == data,
            r.span == span,
    {
        Spanned { data, span }
    }

    /// Transform the value and keep the span.
    pub fn map<F, U>(self, f: F) -> (r: Spanned<U>) where F: FnOnce(T) -> U
        requires
            call_requires(f, (self.data,)),
        ensures
            r.span == self.span,
            call_ensures(f, (self.data,), r.data),
    {
        let data = f(self.data);
        Spanned { data, span: self.span }
    }

    /// Combine two annotated values: the payloads through `f`, the spans
    /// by merging.
    pub fn merge<U, Out, Fun>(self, other: Spanned<U>, f: Fun) -> (r: Spanned<Out>) where
        Fun: FnOnce(T, U) -> Out,

        requires
            self.span.wf(),
            other.span.wf(),
            call_requires(f, (self.data, other.data)),
        ensures
            r.span == self.span.spec_merge(other.span),
            call_ensures(f, (self.data, other.data), r.data),
    {
        let span = self.span.merge(other.span);
        let data = f(self.data, other.data);
        Spanned { data, span }
    }
}


/// A character wrapped for human-readable rendering: quoted when
/// printable, escaped or shown as a code point when not.
pub struct PrettyChar(pub char);

/// What the standard Debug formatting renders a character as.  The
/// rendering is a function of the character alone.
pub uninterp spec fn char_debug_repr(c: char) -> Seq<char>;

/// Relies on the standard library's Debug formatting for `char`, which
/// quotes the character and escapes it when it is not printable.
#[verifier::external_body]
fn char_debug(c: char) -> (r: String)
    ensures
        r@ == char_debug_repr(c),
{
    format!("{:?}", c)
}

/// Whether `c` is a control character: the two control-code ranges of the
/// basic character set.
pub open spec fn spec_is_control(c: char) -> bool {
    (c as u32) < 0x20 || (0x7F <= c as u32 && c as u32 <= 0x9F)
}

/// The human-readable rendering of `c`: common whitespace and plain
/// characters keep their Debug rendering, quote characters are wrapped in
/// the opposite quotes, control characters are shown as a hexadecimal code
/// point, and any other character beyond the basic range carries its code
/// point beside its Debug rendering.
pub open spec fn spec_pretty_char(c: char) -> Seq<char> {
    if c == '\r' || c == '\t' || c == '\n' || c == ' ' {
        char_debug_repr(c)
    } else if c == '\\' || c == '"' {
        seq!['\'', c, '\'']
    } else if c == '\'' {
        seq!['"', '\'', '"']
    } else if spec_is_control(c) {
        seq!['0', 'x'] + spec_hex((c as u32) as nat)
    } else if c as u32 <= 0x7F {
        char_debug_repr(c)
    } else {
        char_debug_repr(c) + seq![' ', '('] + seq!['0', 'x'] + spec_hex((c as u32) as nat)
            + seq![')']
    }
}

impl PrettyChar {
    /// Render the character as `spec_pretty_char` states.
    pub fn display_string(&self) -> (r: String)
        ensures
            r@ == spec_pretty_char(self.0),
    {
        let c = self.0;
        if c == '\r' || c == '\t' || c == '\n' || c == ' ' {
            char_debug(c)
        } else if c == '\\' {
            proof {
                reveal_strlit("'\\'");
                assert("'\\'"@ =~= seq!['\'', '\\', '\'']);
            }
            String::from_str("'\\'")
        } else if c == '"' {
            proof {
                reveal_strlit("'\"'");
                assert("'\"'"@ =~= seq!['\'', '"', '\'']);
            }
            String::from_str("'\"'")
        } else if c == '\'' {
            proof {
                reveal_strlit("\"'\"");
                assert("\"'\""@ =~= seq!['"', '\'', '"']);
            }
            String::from_str("\"'\"")
        } else if (c as u32) < 0x20 || (0x7F <= c as u32 && c as u32 <= 0x9F) {
            let mut r = String::from_str("0x");
            proof {
                reveal_strlit("0x");
            }
            let hex = hex_string(c as u32);
            r.append(hex.as_str());
            proof {
                assert(r@ =~= seq!['0', 'x'] + spec_hex((c as u32) as nat));
            }
            r
        } else if c as u32 <= 0x7F {
            char_debug(c)
        } else {
            let mut r = char_debug(c);
            proof {
                reveal_strlit(" (0x");
                reveal_strlit(")");
            }
            r.append(" (0x");
            let hex = hex_string(c as u32);
            r.append(hex.as_str());
            r.append(")");
            proof {
                assert(r@ =~= char_debug_repr(c) + seq![' ', '('] + seq!['0', 'x'] + spec_hex(
                    (c as u32) as nat,
                ) + seq![')']);
            }
            r
        }
    }
}

} // verus!
