//! Text: decimal numerals, joined lists and the search for a marker.
use vstd::prelude::*;

verus! {

/// The decimal digit that stands for `d`.
pub open spec fn digit_char(d: nat) -> char {
    (48 + d) as char
}

/// The decimal numeral of `n`, without leading zeros.
pub open spec fn decimal(n: nat) -> Seq<char>
    decreases n,
{
    if n < 10 {
        seq![digit_char(n)]
    } else {
        decimal(n / 10).push(digit_char(n % 10))
    }
}

/// What each of the strings holds.
pub open spec fn texts(strings: Seq<String>) -> Seq<Seq<char>> {
    strings.map_values(|s: String| s@)
}

/// The parts one after the other, with `separator` between each two of them.
pub open spec fn joined(parts: Seq<Seq<char>>, separator: Seq<char>) -> Seq<char>
    decreases parts.len(),
{
    if parts.len() == 0 {
        Seq::empty()
    } else if parts.len() == 1 {
        parts[0]
    } else {
        joined(parts.drop_last(), separator) + separator + parts.last()
    }
}

/// The parts one after the other.
pub open spec fn concatenated(parts: Seq<Seq<char>>) -> Seq<char>
    decreases parts.len(),
{
    if parts.len() == 0 {
        Seq::empty()
    } else {
        concatenated(parts.drop_last()) + parts.last()
    }
}

/// What the bytes say as UTF-8, with a replacement character for what says nothing, as
/// `String::from_utf8_lossy` has it.
pub uninterp spec fn lossy_text(bytes: Seq<u8>) -> Seq<char>;

/// Calls `String::from_utf8_lossy`, which reads bytes as UTF-8 and puts replacement characters in
/// place of what is no UTF-8. The contract claims that the text is fixed by the bytes, and that
/// valid UTF-8 is read as what it encodes.
#[verifier::external_body]
pub(crate) fn read_lossy(bytes: &[u8]) -> (r: String)
    ensures
        r@ == lossy_text(bytes@),
        vstd::utf8::valid_utf8(bytes@) ==> r@ == vstd::utf8::decode_utf8(bytes@),
{
    String::from_utf8_lossy(bytes).into_owned()
}

/// `marker` stands in `text` at position `at`.
pub open spec fn occurs_at(text: Seq<char>, marker: Seq<char>, at: int) -> bool {
    &&& 0 <= at
    &&& at + marker.len() <= text.len()
    &&& text.subrange(at, at + marker.len()) == marker
}

/// `marker` stands in `text` at `at`, and nowhere before.
pub open spec fn occurs_first_at(text: Seq<char>, marker: Seq<char>, at: int) -> bool {
    &&& occurs_at(text, marker, at)
    &&& forall|before: int| before < at ==> !occurs_at(text, marker, before)
}

/// `marker` stands somewhere in `text`.
pub open spec fn occurs(text: Seq<char>, marker: Seq<char>) -> bool {
    exists|at: int| occurs_at(text, marker, at)
}

/// The text of one decimal digit.
fn digit_text(d: usize) -> (r: &'static str)
    requires
        d < 10,
    ensures
        r@ == seq![digit_char(d as nat)],
{
    proof {
        reveal_strlit("0");
        reveal_strlit("1");
        reveal_strlit("2");
        reveal_strlit("3");
        reveal_strlit("4");
        reveal_strlit("5");
        reveal_strlit("6");
        reveal_strlit("7");
        reveal_strlit("8");
        reveal_strlit("9");
    }
    match d {
        0 => "0",
        1 => "1",
        2 => "2",
        3 => "3",
        4 => "4",
        5 => "5",
        6 => "6",
        7 => "7",
        8 => "8",
        _ => "9",
    }
}

/// The decimal numeral of `n`.
pub fn decimal_text(n: usize) -> (r: String)
    ensures
        r@ == decimal(n as nat),
    decreases n,
{
    if n < 10 {
        digit_text(n).to_owned()
    } else {
        let mut out = decimal_text(n / 10);
        out.append(digit_text(n % 10));
        out
    }
}

/// The strings one after the other, with `separator` between each two of them.
pub fn join_strings(parts: &Vec<String>, separator: &str) -> (r: String)
    ensures
        r@ == joined(texts(parts@), separator@),
{
    let mut out = String::new();
    let mut i: usize = 0;
    while i < parts.len()
        invariant
            i <= parts.len(),
            out@ == joined(texts(parts@.take(i as int)), separator@),
        decreases parts.len() - i,
    {
        let ghost done = texts(parts@.take(i as int));
        let ghost next = texts(parts@.take(i + 1));
        assert(next.drop_last() =~= done);
        assert(next.last() == parts@[i as int]@);
        if i > 0 {
            out.append(separator);
        }
        out.append(parts[i].as_str());
        i += 1;
    }
    assert(parts@.take(parts@.len() as int) =~= parts@);
    out
}

/// The characters of `text`.
pub fn characters(text: &str) -> (r: Vec<char>)
    ensures
        r@ == text@,
{
    let mut out: Vec<char> = Vec::new();
    for c in it: text.chars()
        invariant
            out@ == text@.take(it.index() as int),
            it.seq() == text@,
    {
        out.push(c);
    }
    out
}

/// Whether `marker` stands in `text` at position `at`.
fn matches_at(text: &Vec<char>, marker: &Vec<char>, at: usize) -> (r: bool)
    requires
        at + marker.len() <= text.len(),
    ensures
        r == occurs_at(text@, marker@, at as int),
{
    let mut i: usize = 0;
    while i < marker.len()
        invariant
            i <= marker.len(),
            at + marker.len() <= text.len(),
            forall|k: int| 0 <= k < i ==> text@[at + k] == marker@[k],
        decreases marker.len() - i,
    {
        if text[at + i] != marker[i] {
            assert(text@.subrange(at as int, at + marker@.len())[i as int] != marker@[i as int]);
            return false;
        }
        i += 1;
    }
    assert(text@.subrange(at as int, at + marker@.len()) =~= marker@);
    true
}

/// The first position at which `marker` stands in `text`.
pub fn find(text: &Vec<char>, marker: &Vec<char>) -> (r: Option<usize>)
    ensures
        match r {
            Some(at) => occurs_first_at(text@, marker@, at as int),
            None => !occurs(text@, marker@),
        },
{
    if marker.len() > text.len() {
        return None;
    }
    let last: usize = text.len() - marker.len();
    let mut at: usize = 0;
    loop
        invariant
            at <= last,
            last == text.len() - marker.len(),
            forall|before: int| before < at ==> !occurs_at(text@, marker@, before),
        decreases last - at,
    {
        if matches_at(text, marker, at) {
            return Some(at);
        }
        if at == last {
            return None;
        }
        at += 1;
    }
}

/// A marker that stands somewhere in a text has a first position there.
pub proof fn lemma_first_occurrence(text: Seq<char>, marker: Seq<char>)
    requires
        occurs(text, marker),
    ensures
        exists|at: int| occurs_first_at(text, marker, at),
{
    let at = choose|at: int| occurs_at(text, marker, at);
    lemma_first_occurrence_up_to(text, marker, at);
}

proof fn lemma_first_occurrence_up_to(text: Seq<char>, marker: Seq<char>, at: int)
    requires
        occurs_at(text, marker, at),
    ensures
        exists|first: int| occurs_first_at(text, marker, first),
    decreases at,
{
    if exists|before: int| before < at && occurs_at(text, marker, before) {
        let before = choose|before: int| before < at && occurs_at(text, marker, before);
        lemma_first_occurrence_up_to(text, marker, before);
    } else {
        assert(occurs_first_at(text, marker, at));
    }
}

/// Two numbers with the same decimal numeral are the same number.
pub proof fn lemma_decimal_injective(a: nat, b: nat)
    requires
        decimal(a) == decimal(b),
    ensures
        a == b,
    decreases a,
{
    lemma_decimal_not_empty(a);
    lemma_decimal_not_empty(b);
    assert(decimal(a).last() == digit_char(a % 10));
    assert(decimal(b).last() == digit_char(b % 10));
    if a < 10 && b < 10 {
    } else if a < 10 {
        lemma_decimal_not_empty(b / 10);
        assert(decimal(b).len() >= 2);
    } else if b < 10 {
        lemma_decimal_not_empty(a / 10);
        assert(decimal(a).len() >= 2);
    } else {
        assert(decimal(a).drop_last() =~= decimal(a / 10));
        assert(decimal(b).drop_last() =~= decimal(b / 10));
        lemma_decimal_injective(a / 10, b / 10);
    }
}

/// A decimal numeral is not empty and holds digits only.
pub proof fn lemma_decimal_not_empty(n: nat)
    ensures
        decimal(n).len() >= 1,
        forall|i: int| 0 <= i < decimal(n).len() ==> '0' <= #[trigger] decimal(n)[i] <= '9',
    decreases n,
{
    if n >= 10 {
        lemma_decimal_not_empty(n / 10);
    }
}

/// The number that a decimal numeral is read as, digit by digit.
pub open spec fn decimal_value(s: Seq<char>) -> nat
    decreases s.len(),
{
    if s.len() == 0 {
        0
    } else {
        decimal_value(s.drop_last()) * 10 + (s.last() as int - '0' as int) as nat
    }
}

/// `s` is a decimal numeral without leading zeros.
pub open spec fn is_decimal(s: Seq<char>) -> bool {
    &&& s.len() > 0
    &&& forall|i: int| 0 <= i < s.len() ==> '0' <= #[trigger] s[i] <= '9'
    &&& s.len() > 1 ==> s[0] != '0'
}

/// The decimal numeral of a number has no leading zeros, and is read as that number.
pub proof fn law_decimal_is_read_back(n: nat)
    ensures
        is_decimal(decimal(n)),
        decimal_value(decimal(n)) == n,
        n > 0 ==> decimal(n)[0] != '0',
    decreases n,
{
    lemma_decimal_not_empty(n);
    let s = decimal(n);
    if n < 10 {
        assert(s.drop_last() =~= Seq::<char>::empty());
        assert(decimal_value(s.drop_last()) == 0);
    } else {
        law_decimal_is_read_back(n / 10);
        assert(s.drop_last() =~= decimal(n / 10));
        assert(s[0] == decimal(n / 10)[0]);
    }
}

/// Two lists joined are the two joined lists with the separator between them; a list of one part
/// joined is that part, and an empty list joined is empty.
pub proof fn law_lists_are_joined(a: Seq<Seq<char>>, b: Seq<Seq<char>>, separator: Seq<char>)
    ensures
        a.len() > 0 && b.len() > 0 ==> joined(a + b, separator) == joined(a, separator) + separator
            + joined(b, separator),
        a.len() == 1 ==> joined(a, separator) == a[0],
        a.len() == 0 ==> joined(a, separator) == Seq::<char>::empty(),
    decreases b.len(),
{
    if a.len() > 0 && b.len() > 0 {
        let all = a + b;
        assert(all.drop_last() =~= a + b.drop_last());
        assert(all.last() == b.last());
        if b.len() == 1 {
            assert(a + b.drop_last() =~= a);
        } else {
            law_lists_are_joined(a, b.drop_last(), separator);
            assert(joined(all, separator) =~= joined(a, separator) + separator + joined(
                b,
                separator,
            ));
        }
    }
}

/// Two lists one after the other are the parts of the first, and then those of the second; a list
/// of one part is that part, and an empty list is empty.
pub proof fn law_lists_are_concatenated(a: Seq<Seq<char>>, b: Seq<Seq<char>>)
    ensures
        concatenated(a + b) == concatenated(a) + concatenated(b),
        a.len() == 1 ==> concatenated(a) == a[0],
        a.len() == 0 ==> concatenated(a) == Seq::<char>::empty(),
    decreases b.len(),
{
    if a.len() == 1 {
        assert(a.drop_last() =~= Seq::<Seq<char>>::empty());
        assert(concatenated(a.drop_last()) =~= Seq::<char>::empty());
        assert(concatenated(a) =~= a[0]);
    }
    if b.len() == 0 {
        assert(a + b =~= a);
        assert(concatenated(a) + concatenated(b) =~= concatenated(a));
    } else {
        law_lists_are_concatenated(a, b.drop_last());
        assert((a + b).drop_last() =~= a + b.drop_last());
        assert((a + b).last() == b.last());
        assert(concatenated(a + b) =~= concatenated(a) + concatenated(b));
    }
}

} // verus!
