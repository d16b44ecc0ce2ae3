//! Text helpers: decimal rendering of numbers, optional texts and the
//! quoted form of a text.

use vstd::prelude::*;
use vstd::string::*;

verus! {

/// The character that stands for a single decimal digit.
pub open spec fn digit_char(d: nat) -> char {
    if d == 0 {
        '0'
    } else if d == 1 {
        '1'
    } else if d == 2 {
        '2'
    } else if d == 3 {
        '3'
    } else if d == 4 {
        '4'
    } else if d == 5 {
        '5'
    } else if d == 6 {
        '6'
    } else if d == 7 {
        '7'
    } else if d == 8 {
        '8'
    } else {
        '9'
    }
}

/// The decimal numeral of `n`, most significant digit first, without
/// leading zeros (zero itself is written `0`).
pub open spec fn decimal_digits(n: nat) -> Seq<char>
    decreases n,
{
    if n < 10 {
        seq![digit_char(n)]
    } else {
        decimal_digits(n / 10).push(digit_char(n % 10))
    }
}

fn digit_str(d: u64) -> (s: &'static str)
    requires
        d < 10,
    ensures
        s@ == seq![digit_char(d as nat)],
{
    proof {
        reveal_strlit("0");
        reveal_strlit("1");
        reveal_strlit("2");
        reveal_strlit("3");
        reveal_strlit("4");
        reveal_strlit("5");
        reveal_strlit("6");
        reveal_strlit("7");
        reveal_strlit("8");
        reveal_strlit("9");
    }
    let s: &'static str = if d == 0 {
        "0"
    } else if d == 1 {
        "1"
    } else if d == 2 {
        "2"
    } else if d == 3 {
        "3"
    } else if d == 4 {
        "4"
    } else if d == 5 {
        "5"
    } else if d == 6 {
        "6"
    } else if d == 7 {
        "7"
    } else if d == 8 {
        "8"
    } else {
        "9"
    };
    assert(s@ =~= seq![digit_char(d as nat)]);
    s
}

/// Renders `n` in decimal.
pub fn decimal(n: u64) -> (s: String)
    ensures
        s@ == decimal_digits(n as nat),
    decreases n,
{
    if n < 10 {
        String::from_str(digit_str(n))
    } else {
        let mut s = decimal(n / 10);
        s.append(digit_str(n % 10));
        assert(s@ =~= decimal_digits(n as nat));
        s
    }
}

/// The text of an optional string.
pub open spec fn opt_text(o: Option<String>) -> Option<Seq<char>> {
    match o {
        Some(s) => Some(s@),
        None => None,
    }
}

/// Copies an optional string.
pub fn clone_opt(o: &Option<String>) -> (r: Option<String>)
    ensures
        opt_text(r) == opt_text(*o),
{
    match o {
        Some(s) => Some(s.clone()),
        None => None,
    }
}

/// The quoted and escaped form that std's `Debug` gives a text.
pub uninterp spec fn str_debug(text: Seq<char>) -> Seq<char>;

/// Renders a text through std's `Debug` impl for `str`, which quotes and
/// escapes it. The contract names the result as [`str_debug`] of the text.
#[verifier::external_body]
pub(crate) fn debug_str(text: &str) -> (s: String)
    ensures
        s@ == str_debug(text@),
{
    format!("{:?}", text)
}

/// How an optional text reads in a debug rendering.
pub open spec fn debug_opt_text(o: Option<Seq<char>>) -> Seq<char> {
    match o {
        Some(s) => "Some("@ + str_debug(s) + ")"@,
        None => "None"@,
    }
}

/// How an optional number reads in a debug rendering.
pub open spec fn debug_opt_number(o: Option<u64>) -> Seq<char> {
    match o {
        Some(n) => "Some("@ + decimal_digits(n as nat) + ")"@,
        None => "None"@,
    }
}

/// Appends `inner` in the brackets of a `Some`.
pub fn append_some(out: &mut String, inner: &str)
    ensures
        final(out)@ == old(out)@ + ("Some("@ + inner@ + ")"@),
{
    let ghost before = out@;
    out.append("Some(");
    out.append(inner);
    out.append(")");
    assert(out@ =~= before + ("Some("@ + inner@ + ")"@));
}

/// Appends the debug rendering of an optional text.
pub fn append_debug_opt_text(out: &mut String, o: &Option<String>)
    ensures
        final(out)@ == old(out)@ + debug_opt_text(opt_text(*o)),
{
    match o {
        Some(s) => {
            append_some(out, debug_str(s.as_str()).as_str());
        },
        None => {
            out.append("None");
        },
    }
}

/// Appends the debug rendering of an optional number.
pub fn append_debug_opt_number(out: &mut String, o: &Option<u64>)
    ensures
        final(out)@ == old(out)@ + debug_opt_number(*o),
{
    match o {
        Some(n) => {
            append_some(out, decimal(*n).as_str());
        },
        None => {
            out.append("None");
        },
    }
}

/// The texts of a sequence of strings.
pub open spec fn texts(v: Seq<String>) -> Seq<Seq<char>> {
    v.map_values(|s: String| s@)
}

/// The texts of a sequence of borrowed strings.
pub open spec fn ref_texts(v: Seq<&String>) -> Seq<Seq<char>> {
    v.map_values(|s: &String| s@)
}

/// Whether a list of strings holds a text.
pub fn contains_text(list: &Vec<String>, text: &String) -> (found: bool)
    ensures
        found == texts(list@).contains(text@),
{
    let mut i: usize = 0;
    while i < list.len()
        invariant
            i <= list.len(),
            forall|k: int| 0 <= k < i ==> texts(list@)[k] != text@,
        decreases list.len() - i,
    {
        if list[i] == *text {
            assert(texts(list@)[i as int] == text@);
            return true;
        }
        i += 1;
    }
    false
}

/// Whether a list of borrowed strings holds a text.
pub fn contains_ref_text(list: &Vec<&String>, text: &String) -> (found: bool)
    ensures
        found == ref_texts(list@).contains(text@),
{
    let mut i: usize = 0;
    while i < list.len()
        invariant
            i <= list.len(),
            forall|k: int| 0 <= k < i ==> ref_texts(list@)[k] != text@,
        decreases list.len() - i,
    {
        if *list[i] == *text {
            assert(ref_texts(list@)[i as int] == text@);
            return true;
        }
        i += 1;
    }
    false
}

/// The texts of a sequence of pairs of strings.
pub open spec fn pair_texts(v: Seq<(String, String)>) -> Seq<(Seq<char>, Seq<char>)> {
    v.map_values(|p: (String, String)| (p.0@, p.1@))
}

/// A pair of owned strings from two texts.
pub fn pair(key: &str, value: &str) -> (p: (String, String))
    ensures
        p.0@ == key@,
        p.1@ == value@,
{
    (String::from_str(key), String::from_str(value))
}

/// The entries of a sequence, each once, in the order of their first
/// occurrence.
pub open spec fn distinct<A>(s: Seq<A>) -> Seq<A>
    decreases s.len(),
{
    if s.len() == 0 {
        s
    } else if distinct(s.drop_last()).contains(s.last()) {
        distinct(s.drop_last())
    } else {
        distinct(s.drop_last()).push(s.last())
    }
}

/// `distinct` of a sequence with one more entry: the entry is added unless
/// it is there already.
pub proof fn lemma_distinct_push<A>(s: Seq<A>, x: A)
    ensures
        distinct(s.push(x)) == if distinct(s).contains(x) {
            distinct(s)
        } else {
            distinct(s).push(x)
        },
{
    assert(s.push(x).drop_last() =~= s);
}

/// A sequence with one more entry holds what it held before and that
/// entry.
pub proof fn lemma_push_contains<A>(s: Seq<A>, y: A, x: A)
    ensures
        s.push(y).contains(x) <==> s.contains(x) || x == y,
{
    let t = s.push(y);
    if s.contains(x) {
        let i = choose|i: int| 0 <= i < s.len() && s[i] == x;
        assert(t[i] == x);
    }
    if x == y {
        assert(t[s.len() as int] == x);
    }
    if t.contains(x) {
        let i = choose|i: int| 0 <= i < t.len() && t[i] == x;
        if i < s.len() {
            assert(s[i] == x);
        }
    }
}

/// A sequence without an entry twice stays so with one more entry that it
/// did not hold.
pub proof fn lemma_push_no_duplicates<A>(s: Seq<A>, y: A)
    requires
        s.no_duplicates(),
        !s.contains(y),
    ensures
        s.push(y).no_duplicates(),
{
    let t = s.push(y);
    assert forall|i: int, j: int| 0 <= i < t.len() && 0 <= j < t.len() && i != j implies t[i]
        != t[j] by {
        if i < s.len() && j < s.len() {
            assert(s[i] != s[j]);
        } else if i < s.len() {
            assert(s[i] == t[i]);
            assert(s.contains(s[i]));
        } else {
            assert(s[j] == t[j]);
            assert(s.contains(s[j]));
        }
    }
}

/// `distinct` holds no entry twice and holds exactly the entries of the
/// sequence.
pub proof fn lemma_distinct<A>(s: Seq<A>)
    ensures
        distinct(s).no_duplicates(),
        forall|x: A| distinct(s).contains(x) <==> s.contains(x),
    decreases s.len(),
{
    if s.len() > 0 {
        let front = s.drop_last();
        let last = s.last();
        lemma_distinct(front);
        let d = distinct(front);
        assert(s =~= front.push(last));
        assert forall|x: A| distinct(s).contains(x) <==> s.contains(x) by {
            lemma_push_contains(front, last, x);
            lemma_push_contains(d, last, x);
            assert(d.contains(x) <==> front.contains(x));
        }
        if !d.contains(last) {
            lemma_push_no_duplicates(d, last);
        }
    }
}

/// A sequence that holds no entry twice is its own `distinct`.
pub proof fn lemma_distinct_keeps(s: Seq<Seq<char>>)
    requires
        s.no_duplicates(),
    ensures
        distinct(s) == s,
    decreases s.len(),
{
    if s.len() > 0 {
        let front = s.drop_last();
        assert(front.no_duplicates());
        lemma_distinct_keeps(front);
        if front.contains(s.last()) {
            let i = choose|i: int| 0 <= i < front.len() && front[i] == s.last();
            assert(s[i] == s[s.len() - 1]);
        }
        assert(s =~= front.push(s.last()));
    }
}

/// Keeps each text once, in the order of first occurrence.
pub fn dedup_texts(list: Vec<String>) -> (kept: Vec<String>)
    ensures
        texts(kept@) == distinct(texts(list@)),
{
    let mut kept: Vec<String> = Vec::new();
    let mut i: usize = 0;
    assert(texts(kept@) =~= distinct(texts(list@).take(0)));
    while i < list.len()
        invariant
            i <= list.len(),
            texts(kept@) == distinct(texts(list@).take(i as int)),
        decreases list.len() - i,
    {
        proof {
            let all = texts(list@);
            all.lemma_take_succ_push(i as int);
            lemma_distinct_push(all.take(i as int), all[i as int]);
        }
        if !contains_text(&kept, &list[i]) {
            let ghost before = kept@;
            kept.push(list[i].clone());
            assert(texts(kept@) =~= texts(before).push(list@[i as int]@));
        }
        i += 1;
    }
    assert(texts(list@).take(i as int) =~= texts(list@));
    kept
}

} // verus!
