//! Text building blocks: decimal rendering, comparison, and conversion into owned strings.

use std::borrow::Cow;
use std::collections::VecDeque;

use vstd::prelude::*;
use vstd::string::*;
use vstd::utf8::*;

verus! {

/// The character for a single decimal digit.
pub open spec fn digit(d: int) -> char {
    (48 + d) as char
}

/// The decimal rendering of `n`, without leading zeros.
pub open spec fn decimal(n: nat) -> Seq<char>
    decreases n,
{
    if n < 10 {
        seq![digit(n as int)]
    } else {
        decimal(n / 10).push(digit((n % 10) as int))
    }
}

/// `count` zeros, none if `count` is not positive.
pub open spec fn zeros(count: int) -> Seq<char> {
    Seq::new(if count > 0 { count as nat } else { 0 }, |i: int| '0')
}

/// The decimal rendering of `n`, widened to `width` characters with zeros after the sign.
pub open spec fn padded(n: int, width: int) -> Seq<char> {
    if n >= 0 {
        zeros(width - decimal(n as nat).len()) + decimal(n as nat)
    } else {
        seq!['-'] + zeros(width - 1 - decimal((-n) as nat).len()) + decimal((-n) as nat)
    }
}

/// Anything that a textual field can be given as.
///
/// `into_text` hands over exactly the characters that `text` names, so a caller knows what ends up
/// in the field whether it passed a literal or an owned string.
pub trait IntoText: Sized {
    /// The characters that this value stands for.
    spec fn text(self) -> Seq<char>;

    /// Turns the value into an owned string.
    fn into_text(self) -> (result: String)
        ensures
            result@ == self.text(),
    ;
}

impl IntoText for String {
    open spec fn text(self) -> Seq<char> {
        self@
    }

    fn into_text(self) -> (result: String) {
        self
    }
}

impl<'a> IntoText for &'a String {
    open spec fn text(self) -> Seq<char> {
        self@
    }

    fn into_text(self) -> (result: String) {
        self.clone()
    }
}

impl<'a> IntoText for &'a str {
    open spec fn text(self) -> Seq<char> {
        self@
    }

    fn into_text(self) -> (result: String) {
        self.to_owned()
    }
}

impl<'a> IntoText for Cow<'a, str> {
    open spec fn text(self) -> Seq<char> {
        self@
    }

    fn into_text(self) -> (result: String) {
        match self {
            Cow::Borrowed(text) => text.to_owned(),
            Cow::Owned(text) => text,
        }
    }
}

impl IntoText for Box<str> {
    open spec fn text(self) -> Seq<char> {
        self@
    }

    fn into_text(self) -> (result: String) {
        let text: &str = &self;
        text.to_owned()
    }
}

impl<'a> IntoText for &'a mut str {
    open spec fn text(self) -> Seq<char> {
        (*self)@
    }

    fn into_text(self) -> (result: String) {
        let text: &str = self;
        text.to_owned()
    }
}

impl IntoText for char {
    open spec fn text(self) -> Seq<char> {
        seq![self]
    }

    fn into_text(self) -> (result: String) {
        let mut result = String::new();
        result.push(self);
        assert(result@ =~= seq![self]);
        result
    }
}

/// `String::push`: appends one character.
pub assume_specification[ String::push ](string: &mut String, c: char)
    ensures
        final(string)@ == old(string)@.push(c),
;

/// A list of anything that a textual field can be given as.
pub trait IntoTexts: Sized {
    /// The characters that each value of the list stands for, in order.
    spec fn list(self) -> Seq<Seq<char>>;

    /// Turns the list into owned strings.
    fn into_texts(self) -> (result: Vec<String>)
        ensures
            texts(result@) == self.list(),
    ;
}

/// The characters of each string of a sequence.
pub open spec fn texts(strings: Seq<String>) -> Seq<Seq<char>> {
    strings.map_values(|s: String| s@)
}

/// What each value of a sequence converts into.
pub open spec fn converted<S: IntoText>(values: Seq<S>) -> Seq<Seq<char>> {
    values.map_values(|s: S| s.text())
}

impl<S: IntoText> IntoTexts for Vec<S> {
    open spec fn list(self) -> Seq<Seq<char>> {
        converted(self@)
    }

    fn into_texts(self) -> (result: Vec<String>) {
        let ghost all = self@;
        let mut result: Vec<String> = Vec::new();
        assert(texts(result@) =~= converted(all.take(0)));
        for value in it: self
            invariant
                it.seq() == all,
                texts(result@) == converted(all.take(it.index() as int)),
        {
            let ghost before = texts(result@);
            result.push(value.into_text());
            proof {
                assert(texts(result@) =~= before.push(value.text()));
                assert(converted(all.take(it.index() + 1)) =~= converted(
                    all.take(it.index() as int),
                ).push(value.text()));
            }
        }
        assert(all.take(all.len() as int) =~= all);
        result
    }
}

/// `Vec::from` on an array: its items, in order.
#[verifier::external_body]
fn items<S, const N: usize>(array: [S; N]) -> (items: Vec<S>)
    ensures
        items@ == array@,
{
    Vec::from(array)
}

impl<S: IntoText, const N: usize> IntoTexts for [S; N] {
    open spec fn list(self) -> Seq<Seq<char>> {
        converted(self@)
    }

    fn into_texts(self) -> (result: Vec<String>) {
        items(self).into_texts()
    }
}

impl<'a> IntoTexts for &'a [String] {
    open spec fn list(self) -> Seq<Seq<char>> {
        texts(self@)
    }

    fn into_texts(self) -> (result: Vec<String>) {
        let mut result: Vec<String> = Vec::new();
        let mut i: usize = 0;
        while i < self.len()
            invariant
                i <= self@.len(),
                result@ == self@.take(i as int),
            decreases self.len() - i,
        {
            result.push(self[i].clone());
            assert(result@ =~= self@.take(i + 1));
            i = i + 1;
        }
        assert(self@.take(i as int) =~= self@);
        result
    }
}

impl<'a> IntoTexts for &'a Vec<String> {
    open spec fn list(self) -> Seq<Seq<char>> {
        texts(self@)
    }

    fn into_texts(self) -> (result: Vec<String>) {
        self.as_slice().into_texts()
    }
}

impl<S: IntoText> IntoTexts for VecDeque<S> {
    open spec fn list(self) -> Seq<Seq<char>> {
        converted(self@)
    }

    fn into_texts(self) -> (result: Vec<String>) {
        let ghost all = self@;
        let mut rest = self;
        let mut result: Vec<String> = Vec::new();
        assert(texts(result@) =~= converted(all.take(0)));
        assert(rest@ =~= all.skip(0));
        let ghost mut taken: int = 0;
        while rest.len() > 0
            invariant
                0 <= taken <= all.len(),
                rest@ == all.skip(taken),
                texts(result@) == converted(all.take(taken)),
            decreases rest.len(),
        {
            let ghost before = texts(result@);
            if let Some(value) = rest.pop_front() {
                assert(value == all[taken]);
                result.push(value.into_text());
                proof {
                    assert(texts(result@) =~= before.push(value.text()));
                    assert(converted(all.take(taken + 1)) =~= converted(all.take(taken)).push(
                        value.text(),
                    ));
                    assert(rest@ =~= all.skip(taken + 1));
                    taken = taken + 1;
                }
            }
        }
        assert(all.take(all.len() as int) =~= all);
        result
    }
}

impl<S: IntoText> IntoTexts for Option<S> {
    open spec fn list(self) -> Seq<Seq<char>> {
        match self {
            Some(value) => seq![value.text()],
            None => seq![],
        }
    }

    fn into_texts(self) -> (result: Vec<String>) {
        let ghost list = self.list();
        let mut result: Vec<String> = Vec::new();
        if let Some(value) = self {
            result.push(value.into_text());
        }
        assert(texts(result@) =~= list);
        result
    }
}

/// Whether two strings hold the same characters.
pub fn same_text(a: &str, b: &str) -> (same: bool)
    ensures
        same == (a@ == b@),
{
    let left: &[u8] = a.as_bytes();
    let right: &[u8] = b.as_bytes();
    proof {
        encode_utf8_decode_utf8(a@);
        encode_utf8_decode_utf8(b@);
    }
    if left.len() != right.len() {
        return false;
    }
    let mut i: usize = 0;
    while i < left.len()
        invariant
            i <= left@.len(),
            left@.len() == right@.len(),
            left@ == encode_utf8(a@),
            right@ == encode_utf8(b@),
            forall|j: int| 0 <= j < i ==> left@[j] == right@[j],
        decreases left.len() - i,
    {
        if left[i] != right[i] {
            assert(left@[i as int] != right@[i as int]);
            return false;
        }
        i = i + 1;
    }
    assert(left@ =~= right@);
    true
}

/// Appends one decimal digit.
fn push_digit(out: &mut String, d: u8)
    requires
        d < 10,
    ensures
        final(out)@ == old(out)@.push(digit(d as int)),
{
    let text = match d {
        0 => "0",
        1 => "1",
        2 => "2",
        3 => "3",
        4 => "4",
        5 => "5",
        6 => "6",
        7 => "7",
        8 => "8",
        _ => "9",
    };
    proof {
        reveal_strlit("0");
        reveal_strlit("1");
        reveal_strlit("2");
        reveal_strlit("3");
        reveal_strlit("4");
        reveal_strlit("5");
        reveal_strlit("6");
        reveal_strlit("7");
        reveal_strlit("8");
        reveal_strlit("9");
        assert(text@ =~= seq![digit(d as int)]);
        assert(out@ + text@ =~= out@.push(digit(d as int)));
    }
    out.append(text);
}

/// Appends the decimal rendering of `n`.
pub fn push_decimal(out: &mut String, n: u128)
    ensures
        final(out)@ == old(out)@ + decimal(n as nat),
    decreases n,
{
    let ghost before = out@;
    if n >= 10 {
        push_decimal(out, n / 10);
        proof {
            assert(decimal(n as nat) == decimal((n / 10) as nat).push(digit((n % 10) as int)));
            assert((before + decimal((n / 10) as nat)).push(digit((n % 10) as int)) =~= before
                + decimal(n as nat));
        }
    } else {
        assert(before.push(digit(n as int)) =~= before + decimal(n as nat));
    }
    push_digit(out, (n % 10) as u8);
}

/// How many digits the decimal rendering of `n` has.
fn decimal_len(n: u128) -> (len: usize)
    ensures
        len == decimal(n as nat).len(),
        1 <= len <= 39,
{
    proof {
        reveal_with_fuel(power_of_ten, 40);
        lemma_decimal_len(n as nat, 39);
    }
    let mut rest: u128 = n;
    let mut len: usize = 1;
    while rest >= 10
        invariant
            len as int + decimal(rest as nat).len() == 1 + decimal(n as nat).len(),
            1 <= len,
            1 <= decimal(rest as nat).len(),
            decimal(n as nat).len() <= 39,
        decreases rest,
    {
        proof {
            lemma_decimal_nonempty((rest / 10) as nat);
            assert(decimal(rest as nat).len() == decimal((rest / 10) as nat).len() + 1);
        }
        rest = rest / 10;
        len = len + 1;
    }
    len
}

/// Appends a number of the given sign and magnitude, widened to `width` characters with zeros.
pub fn push_padded(out: &mut String, negative: bool, magnitude: u128, width: usize)
    requires
        negative ==> magnitude > 0,
    ensures
        final(out)@ == old(out)@ + padded(
            if negative {
                -(magnitude as int)
            } else {
                magnitude as int
            },
            width as int,
        ),
{
    let ghost before = out@;
    let len = decimal_len(magnitude);
    let ghost sign: Seq<char> = if negative { seq!['-'] } else { seq![] };
    let mut used: usize = len;
    if negative {
        proof {
            reveal_strlit("-");
            assert("-"@ =~= seq!['-']);
        }
        out.append("-");
        used = used + 1;
    }
    let ghost wanted: int = width - used;
    let ghost mut count: int = 0;
    assert(out@ =~= before + sign + zeros(0));
    while used < width
        invariant
            len <= used,
            count >= 0,
            used <= width ==> count == wanted - (width - used),
            used > width ==> count == 0 && wanted < 0,
            out@ == before + sign + zeros(count),
        decreases width - used,
    {
        proof {
            reveal_strlit("0");
            assert("0"@ =~= seq!['0']);
            assert(before + sign + zeros(count) + "0"@ =~= before + sign + zeros(count + 1));
            count = count + 1;
        }
        out.append("0");
        used = used + 1;
    }
    assert(zeros(count) =~= zeros(wanted));
    push_decimal(out, magnitude);
    assert(before + sign + zeros(wanted) + decimal(magnitude as nat) =~= before + padded(
        if negative {
            -(magnitude as int)
        } else {
            magnitude as int
        },
        width as int,
    ));
}

proof fn lemma_decimal_nonempty(n: nat)
    ensures
        decimal(n).len() >= 1,
{
}

/// Powers of ten, as bounds on the numbers with a given count of digits.
pub open spec fn power_of_ten(k: nat) -> nat
    decreases k,
{
    if k == 0 {
        1
    } else {
        10 * power_of_ten((k - 1) as nat)
    }
}

proof fn lemma_decimal_len(n: nat, k: nat)
    requires
        k >= 1,
        n < power_of_ten(k),
    ensures
        1 <= decimal(n).len() <= k,
    decreases k,
{
    if n >= 10 {
        assert(k >= 2) by {
            if k == 1 {
                assert(power_of_ten(1) == 10 * power_of_ten(0));
            }
        }
        lemma_decimal_len(n / 10, (k - 1) as nat);
    }
}

/// The number that a row of decimal digits stands for.
pub open spec fn value(digits: Seq<char>) -> int
    decreases digits.len(),
{
    if digits.len() == 0 {
        0
    } else {
        10 * value(digits.drop_last()) + (digits.last() as int - '0' as int)
    }
}

/// The number that a row of decimal digits with an optional minus in front stands for.
pub open spec fn signed_value(text: Seq<char>) -> int {
    if text.len() > 0 && text[0] == '-' {
        -value(text.drop_first())
    } else {
        value(text)
    }
}

/// Whether a text is a row of decimal digits.
pub open spec fn all_digits(text: Seq<char>) -> bool {
    forall|i: int| 0 <= i < text.len() ==> '0' <= #[trigger] text[i] <= '9'
}

/// A number's decimal rendering reads back as the number, and has no zero in front.
pub proof fn lemma_decimal_reads_back(n: nat)
    ensures
        value(decimal(n)) == n,
        all_digits(decimal(n)),
        decimal(n).len() > 0,
        decimal(n)[0] == '0' ==> n == 0 && decimal(n).len() == 1,
    decreases n,
{
    if n >= 10 {
        lemma_decimal_reads_back(n / 10);
        let shorter = decimal(n / 10);
        assert(decimal(n).drop_last() =~= shorter);
        assert(decimal(n)[0] == shorter[0]);
    } else {
        assert(decimal(n).drop_last() =~= seq![]);
        assert(value(decimal(n).drop_last()) == 0);
    }
}

/// Zeros in front do not change what a row of digits stands for.
proof fn lemma_zeros_in_front(count: int, digits: Seq<char>)
    requires
        count >= 0,
    ensures
        value(zeros(count) + digits) == value(digits),
    decreases digits.len(), count,
{
    let whole = zeros(count) + digits;
    if digits.len() > 0 {
        assert(whole.drop_last() =~= zeros(count) + digits.drop_last());
        assert(whole.last() == digits.last());
        lemma_zeros_in_front(count, digits.drop_last());
    } else if count > 0 {
        assert(whole.drop_last() =~= zeros(count - 1) + digits);
        assert(whole.last() == '0');
        lemma_zeros_in_front(count - 1, digits);
    } else {
        assert(whole =~= digits);
    }
}

/// A widened number reads back as the number, sign included; it has at least the width asked for,
/// and zeros in front only to reach it.
pub proof fn lemma_padded_reads_back(n: int, width: int)
    requires
        width > 0,
    ensures
        signed_value(padded(n, width)) == n,
        padded(n, width).len() >= width,
        n >= 0 ==> all_digits(padded(n, width)) && value(padded(n, width)) == n,
        n < 0 ==> padded(n, width)[0] == '-' && all_digits(padded(n, width).drop_first()),
        padded(n, width).len() > width ==> padded(n, width) == signed_rendering(n),
{
    let magnitude: nat = if n >= 0 {
        n as nat
    } else {
        (-n) as nat
    };
    let plain = decimal(magnitude);
    lemma_decimal_reads_back(magnitude);
    let count = if n >= 0 {
        width - plain.len()
    } else {
        width - 1 - plain.len()
    };
    let shown = if count > 0 {
        count
    } else {
        0
    };
    lemma_zeros_in_front(shown, plain);
    assert(zeros(count) =~= zeros(shown));
    let text = padded(n, width);
    if n >= 0 {
        assert(text =~= zeros(shown) + plain);
        if shown > 0 {
            assert(text[0] == '0');
        } else {
            assert(text[0] == plain[0]);
        }
        if text.len() > width {
            assert(text =~= plain);
        }
    } else {
        assert(text.drop_first() =~= zeros(shown) + plain);
        if text.len() > width {
            assert(text =~= seq!['-'] + plain);
        }
    }
}

/// A number without any zeros in front.
pub open spec fn signed_rendering(n: int) -> Seq<char> {
    if n >= 0 {
        decimal(n as nat)
    } else {
        seq!['-'] + decimal((-n) as nat)
    }
}

/// Whatever a textual field is given as, it gets exactly the characters that were given.
pub proof fn lemma_texts_are_taken_as_they_are(
    owned: String,
    borrowed: &String,
    slice: &str,
    boxed: Box<str>,
    cow: Cow<str>,
    c: char,
    result: String,
)
    ensures
        call_ensures(<String as IntoText>::into_text, (owned,), result) ==> result@ == owned@,
        call_ensures(<&String as IntoText>::into_text, (borrowed,), result) ==> result@
            == borrowed@,
        call_ensures(<&str as IntoText>::into_text, (slice,), result) ==> result@ == slice@,
        call_ensures(<Box<str> as IntoText>::into_text, (boxed,), result) ==> result@ == boxed@,
        call_ensures(<Cow<str> as IntoText>::into_text, (cow,), result) ==> result@ == cow@,
        call_ensures(<char as IntoText>::into_text, (c,), result) ==> result@ == seq![c],
        owned.text() == owned@,
        slice.text() == slice@,
        c.text() == seq![c],
{
}

/// A list of texts is taken over whole and in order: as many strings as values, each with the
/// characters of its own value.
pub proof fn lemma_lists_are_taken_in_order<S: IntoText, const N: usize>(
    list: Vec<S>,
    array: [S; N],
    strings: &[String],
    result: Vec<String>,
)
    ensures
        call_ensures(<Vec<S> as IntoTexts>::into_texts, (list,), result) ==> {
            &&& result@.len() == list@.len()
            &&& forall|i: int| 0 <= i < list@.len() ==> (#[trigger] result@[i])@ == list@[i].text()
        },
        call_ensures(<[S; N] as IntoTexts>::into_texts, (array,), result) ==> {
            &&& result@.len() == N
            &&& forall|i: int| 0 <= i < N ==> (#[trigger] result@[i])@ == array@[i].text()
        },
        call_ensures(<&[String] as IntoTexts>::into_texts, (strings,), result) ==> {
            &&& result@.len() == strings@.len()
            &&& forall|i: int|
                0 <= i < strings@.len() ==> (#[trigger] result@[i])@ == strings@[i]@
        },
{
    if call_ensures(<Vec<S> as IntoTexts>::into_texts, (list,), result) {
        assert(texts(result@).len() == converted(list@).len());
        assert forall|i: int| 0 <= i < list@.len() implies (#[trigger] result@[i])@
            == list@[i].text() by {
            assert(texts(result@)[i] == converted(list@)[i]);
        }
    }
    if call_ensures(<[S; N] as IntoTexts>::into_texts, (array,), result) {
        assert(texts(result@).len() == converted(array@).len());
        assert forall|i: int| 0 <= i < N implies (#[trigger] result@[i])@ == array@[i].text() by {
            assert(texts(result@)[i] == converted(array@)[i]);
        }
    }
    if call_ensures(<&[String] as IntoTexts>::into_texts, (strings,), result) {
        assert(texts(result@).len() == texts(strings@).len());
        assert forall|i: int| 0 <= i < strings@.len() implies (#[trigger] result@[i])@
            == strings@[i]@ by {
            assert(texts(result@)[i] == texts(strings@)[i]);
        }
    }
}

}
