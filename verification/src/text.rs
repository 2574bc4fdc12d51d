//! Operations on text that the standard library has and that are stated here exactly.
use vstd::prelude::*;
use vstd::string::*;

verus! {

/// The characters of a text.
pub fn characters(text: &str) -> (chars: Vec<char>)
    ensures
        chars@ == text@,
{
    let mut chars: Vec<char> = Vec::new();
    for c in it: text.chars()
        invariant
            it.seq() == text@,
            chars@ == text@.take(it.index()),
    {
        chars.push(c);
        assert(text@.take(it.index() + 1) =~= text@.take(it.index()).push(c));
    }
    assert(text@.take(text@.len() as int) =~= text@);
    chars
}

/// Whether `part` stands in `whole` at position `at`.
pub open spec fn occurs_at(whole: Seq<char>, part: Seq<char>, at: int) -> bool {
    0 <= at && at + part.len() <= whole.len() && whole.subrange(at, at + part.len()) == part
}

/// Whether `part` stands anywhere in `whole`.
pub open spec fn occurs(whole: Seq<char>, part: Seq<char>) -> bool {
    exists|at: int| occurs_at(whole, part, at)
}

/// Whether `part` stands in `whole` at position `at`.
fn matches_at(whole: &Vec<char>, part: &Vec<char>, at: usize) -> (r: bool)
    requires
        at <= whole@.len(),
    ensures
        r == occurs_at(whole@, part@, at as int),
{
    if part.len() > whole.len() - at {
        return false;
    }
    for k in 0..part.len()
        invariant
            at + part@.len() <= whole.len(),
            forall|j: int| 0 <= j < k ==> whole@[at + j] == part@[j],
    {
        if whole[at + k] != part[k] {
            assert(whole@.subrange(at as int, at + part@.len())[k as int] != part@[k as int]);
            return false;
        }
    }
    assert(whole@.subrange(at as int, at + part@.len()) =~= part@);
    true
}

/// Whether `part` stands anywhere in `whole`.
pub fn contains_text(whole: &str, part: &str) -> (r: bool)
    ensures
        r == occurs(whole@, part@),
{
    let chars = characters(whole);
    let wanted = characters(part);
    let mut at: usize = 0;
    while at < chars.len()
        invariant
            chars@ == whole@,
            wanted@ == part@,
            at <= chars@.len(),
            forall|j: int| 0 <= j < at ==> !occurs_at(whole@, part@, j),
        decreases chars@.len() - at,
    {
        if matches_at(&chars, &wanted, at) {
            return true;
        }
        at += 1;
    }
    matches_at(&chars, &wanted, at)
}

/// `text` with every occurrence of `pattern` replaced by `by`, found from left to right without
/// overlap.
pub open spec fn replaced(text: Seq<char>, pattern: Seq<char>, by: Seq<char>) -> Seq<char>
    decreases text.len(),
{
    if text.len() == 0 || pattern.len() == 0 {
        text
    } else if occurs_at(text, pattern, 0) {
        by + replaced(text.skip(pattern.len() as int), pattern, by)
    } else {
        seq![text[0]] + replaced(text.skip(1), pattern, by)
    }
}

/// Replaces every occurrence of `pattern` in `text` by `by`.
pub fn replace_text(text: &str, pattern: &str, by: &str) -> (r: String)
    requires
        pattern@.len() > 0,
    ensures
        r@ == replaced(text@, pattern@, by@),
{
    let chars = characters(text);
    let wanted = characters(pattern);
    let mut r = String::new();
    let mut at: usize = 0;
    assert(text@.skip(0) =~= text@);
    while at < chars.len()
        invariant
            chars@ == text@,
            wanted@ == pattern@,
            pattern@.len() > 0,
            at <= chars.len(),
            r@ + replaced(text@.skip(at as int), pattern@, by@) =~= replaced(text@, pattern@, by@),
        decreases chars@.len() - at,
    {
        let ghost rest = text@.skip(at as int);
        if matches_at(&chars, &wanted, at) {
            assert(rest.subrange(0, pattern@.len() as int) =~= text@.subrange(
                at as int,
                at + pattern@.len(),
            ));
            assert(rest.skip(pattern@.len() as int) =~= text@.skip(at + pattern@.len()));
            r.append(by);
            at += wanted.len();
        } else {
            proof {
                if occurs_at(rest, pattern@, 0) {
                    assert(rest.subrange(0, pattern@.len() as int) =~= text@.subrange(
                        at as int,
                        at + pattern@.len(),
                    ));
                }
            }
            assert(rest.skip(1) =~= text@.skip(at + 1));
            assert(text@.subrange(at as int, at + 1) =~= seq![rest[0]]);
            r.append(text.substring_char(at, at + 1));
            at += 1;
        }
    }
    r
}

/// Whether a character is white space in the sense of Unicode.
pub open spec fn is_space(c: char) -> bool {
    ||| 0x9 <= c as u32 <= 0xd
    ||| c as u32 == 0x20
    ||| c as u32 == 0x85
    ||| c as u32 == 0xa0
    ||| c as u32 == 0x1680
    ||| 0x2000 <= c as u32 <= 0x200a
    ||| c as u32 == 0x2028
    ||| c as u32 == 0x2029
    ||| c as u32 == 0x202f
    ||| c as u32 == 0x205f
    ||| c as u32 == 0x3000
}

/// Whether a character is white space.
fn space(c: char) -> (r: bool)
    ensures
        r == is_space(c),
{
    let n = c as u32;
    (0x9 <= n && n <= 0xd) || n == 0x20 || n == 0x85 || n == 0xa0 || n == 0x1680 || (0x2000 <= n && n
        <= 0x200a) || n == 0x2028 || n == 0x2029 || n == 0x202f || n == 0x205f || n == 0x3000
}

/// `text` without the white space it starts with.
pub open spec fn trimmed_start(text: Seq<char>) -> Seq<char>
    decreases text.len(),
{
    if text.len() > 0 && is_space(text[0]) {
        trimmed_start(text.skip(1))
    } else {
        text
    }
}

/// `text` without the white space it ends with.
pub open spec fn trimmed_end(text: Seq<char>) -> Seq<char>
    decreases text.len(),
{
    if text.len() > 0 && is_space(text.last()) {
        trimmed_end(text.drop_last())
    } else {
        text
    }
}

/// The text without the white space around it.
pub fn trim_text(text: &str) -> (r: String)
    ensures
        r@ == trimmed_end(trimmed_start(text@)),
{
    let chars = characters(text);
    let mut from: usize = 0;
    assert(text@.skip(0) =~= text@);
    while from < chars.len() && space(chars[from])
        invariant
            chars@ == text@,
            from <= chars@.len(),
            trimmed_start(text@.skip(from as int)) == trimmed_start(text@),
        decreases chars@.len() - from,
    {
        assert(text@.skip(from as int).skip(1) =~= text@.skip(from + 1));
        from += 1;
    }
    let mut to: usize = chars.len();
    assert(trimmed_start(text@) == text@.skip(from as int));
    assert(text@.subrange(from as int, to as int) =~= text@.skip(from as int));
    while to > from && space(chars[to - 1])
        invariant
            chars@ == text@,
            from <= to <= chars@.len(),
            trimmed_end(text@.subrange(from as int, to as int)) == trimmed_end(
                text@.skip(from as int),
            ),
        decreases to,
    {
        assert(text@.subrange(from as int, to as int).drop_last() =~= text@.subrange(
            from as int,
            to - 1,
        ));
        to -= 1;
    }
    text.substring_char(from, to).to_owned()
}

/// A text holds a part if and only if it is something, the part, and something more.
pub proof fn law_occurs(whole: Seq<char>, part: Seq<char>)
    ensures
        occurs(whole, part) <==> exists|a: Seq<char>, b: Seq<char>| whole == #[trigger] (a + part + b),
{
    if occurs(whole, part) {
        let at = choose|at: int| occurs_at(whole, part, at);
        let (a, b) = (whole.take(at), whole.skip(at + part.len()));
        assert(whole =~= a + part + b);
    }
    if exists|a: Seq<char>, b: Seq<char>| whole == #[trigger] (a + part + b) {
        let (a, b) = choose|a: Seq<char>, b: Seq<char>| whole == #[trigger] (a + part + b);
        let at = a.len() as int;
        assert(whole.subrange(at, at + part.len()) =~= part);
        assert(occurs_at(whole, part, at));
    }
}

/// Replacing leaves a text without the pattern as it is. Otherwise it keeps what comes before the
/// first occurrence, puts the new text in the place of that, and goes on after it.
pub proof fn law_replaced(
    before: Seq<char>,
    pattern: Seq<char>,
    after: Seq<char>,
    by: Seq<char>,
    plain: Seq<char>,
)
    requires
        pattern.len() > 0,
        forall|k: int|
            0 <= k < before.len() ==> #[trigger] (before + pattern + after).subrange(
                k,
                k + pattern.len(),
            ) != pattern,
        forall|k: int|
            0 <= k <= plain.len() - pattern.len() ==> #[trigger] plain.subrange(
                k,
                k + pattern.len(),
            ) != pattern,
    ensures
        replaced(before + pattern + after, pattern, by) == before + by + replaced(
            after,
            pattern,
            by,
        ),
        replaced(plain, pattern, by) == plain,
{
    lemma_replaced_first(before, pattern, after, by);
    lemma_replaced_nowhere(plain, pattern, by);
}

/// Replacing at the first occurrence.
proof fn lemma_replaced_first(
    before: Seq<char>,
    pattern: Seq<char>,
    after: Seq<char>,
    by: Seq<char>,
)
    requires
        pattern.len() > 0,
        forall|k: int|
            0 <= k < before.len() ==> #[trigger] (before + pattern + after).subrange(
                k,
                k + pattern.len(),
            ) != pattern,
    ensures
        replaced(before + pattern + after, pattern, by) == before + by + replaced(
            after,
            pattern,
            by,
        ),
    decreases before.len(),
{
    let text = before + pattern + after;
    let n = pattern.len() as int;
    if before.len() == 0 {
        assert(text.subrange(0, 0 + n) =~= pattern);
        assert(text.skip(n) =~= after);
        assert(before + by + replaced(after, pattern, by) =~= by + replaced(after, pattern, by));
    } else {
        let rest = before.skip(1);
        assert(text.subrange(0, 0 + n) != pattern);
        assert(text.skip(1) =~= rest + pattern + after);
        assert forall|k: int| 0 <= k < rest.len() implies #[trigger] (rest + pattern
            + after).subrange(k, k + n) != pattern by {
            assert(text.subrange(k + 1, k + 1 + n) =~= (rest + pattern + after).subrange(k, k + n));
        }
        lemma_replaced_first(rest, pattern, after, by);
        assert(before + by + replaced(after, pattern, by) =~= seq![text[0]] + (rest + by + replaced(
            after,
            pattern,
            by,
        )));
    }
}

/// Replacing where there is nothing to replace.
proof fn lemma_replaced_nowhere(plain: Seq<char>, pattern: Seq<char>, by: Seq<char>)
    requires
        pattern.len() > 0,
        forall|k: int|
            0 <= k <= plain.len() - pattern.len() ==> #[trigger] plain.subrange(
                k,
                k + pattern.len(),
            ) != pattern,
    ensures
        replaced(plain, pattern, by) == plain,
    decreases plain.len(),
{
    let n = pattern.len() as int;
    if plain.len() > 0 {
        let rest = plain.skip(1);
        if n <= plain.len() {
            assert(plain.subrange(0, 0 + n) != pattern);
        }
        assert forall|k: int| 0 <= k <= rest.len() - n implies #[trigger] rest.subrange(k, k + n)
            != pattern by {
            assert(plain.subrange(k + 1, k + 1 + n) =~= rest.subrange(k, k + n));
        }
        lemma_replaced_nowhere(rest, pattern, by);
        assert(seq![plain[0]] + rest =~= plain);
    }
}

/// Whether a character is one of those that Unicode counts as white space.
pub open spec fn is_white(c: char) -> bool {
    let n = c as u32;
    ||| n == 9
    ||| n == 10
    ||| n == 11
    ||| n == 12
    ||| n == 13
    ||| n == 32
    ||| n == 133
    ||| n == 160
    ||| n == 5760
    ||| 8192 <= n <= 8202
    ||| n == 8232
    ||| n == 8233
    ||| n == 8239
    ||| n == 8287
    ||| n == 12288
}

/// Trimming takes off white space, all that there is at either end and nothing else: a text is some
/// white space, the trimmed text and some white space, and the trimmed text neither begins nor ends
/// with any.
pub proof fn law_trimmed(text: Seq<char>)
    ensures
        ({
            let r = trimmed_end(trimmed_start(text));
            &&& exists|a: Seq<char>, b: Seq<char>|
                {
                    &&& text == #[trigger] (a + r + b)
                    &&& forall|i: int| 0 <= i < a.len() ==> is_white(#[trigger] a[i])
                    &&& forall|i: int| 0 <= i < b.len() ==> is_white(#[trigger] b[i])
                }
            &&& r.len() > 0 ==> !is_white(r[0]) && !is_white(r.last())
        }),
{
    let s = trimmed_start(text);
    let r = trimmed_end(s);
    lemma_trimmed_start(text);
    lemma_trimmed_end(s);
    let a = text.take(text.len() - s.len());
    let b = s.skip(r.len() as int);
    assert(text =~= a + r + b) by {
        assert(text =~= a + s);
        assert(s =~= r + b);
    }
}

/// What is taken off at the start.
proof fn lemma_trimmed_start(text: Seq<char>)
    ensures
        ({
            let s = trimmed_start(text);
            &&& s.len() <= text.len()
            &&& s == text.skip(text.len() - s.len())
            &&& forall|i: int| 0 <= i < text.len() - s.len() ==> is_white(#[trigger] text[i])
            &&& s.len() > 0 ==> !is_white(s[0])
        }),
    decreases text.len(),
{
    if text.len() > 0 && is_space(text[0]) {
        let rest = text.skip(1);
        lemma_trimmed_start(rest);
        let s = trimmed_start(text);
        assert(text.skip(text.len() - s.len()) =~= rest.skip(rest.len() - s.len()));
        assert forall|i: int| 0 <= i < text.len() - s.len() implies is_white(#[trigger] text[i]) by {
            if i > 0 {
                assert(rest[i - 1] == text[i]);
            }
        }
    } else {
        assert(text.skip(0) =~= text);
    }
}

/// What is taken off at the end.
proof fn lemma_trimmed_end(text: Seq<char>)
    ensures
        ({
            let r = trimmed_end(text);
            &&& r.len() <= text.len()
            &&& r == text.take(r.len() as int)
            &&& forall|i: int| r.len() <= i < text.len() ==> is_white(#[trigger] text[i])
            &&& r.len() > 0 ==> !is_white(r.last()) && r[0] == text[0]
        }),
    decreases text.len(),
{
    if text.len() > 0 && is_space(text.last()) {
        let rest = text.drop_last();
        lemma_trimmed_end(rest);
        let r = trimmed_end(text);
        assert(text.take(r.len() as int) =~= rest.take(r.len() as int));
        assert forall|i: int| r.len() <= i < text.len() implies is_white(#[trigger] text[i]) by {
            if i < rest.len() {
                assert(rest[i] == text[i]);
            }
        }
    } else {
        assert(text.take(text.len() as int) =~= text);
    }
}

} // verus!
