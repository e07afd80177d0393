//! Page selections: the grammar of page expressions and the set of pages one selects.
//!
//! An expression is a list of tokens separated by commas. A token is a page
//! number `N` or an inclusive range `A-B`, counted from one as a reader counts
//! pages. White space around a token, and around either end of a range, is
//! ignored, and so are empty tokens. The selection holds the same pages
//! counted from zero.

use std::collections::HashSet;

use vstd::prelude::*;

use crate::error::{AppError, Failure};
use crate::text::{append_decimal, chars_of, decimal};

verus! {

/// White space: the characters with the Unicode property `White_Space`.
pub open spec fn is_space(c: char) -> bool {
    let u = c as u32;
    ||| 0x09 <= u <= 0x0D
    ||| u == 0x20
    ||| u == 0x85
    ||| u == 0xA0
    ||| u == 0x1680
    ||| 0x2000 <= u <= 0x200A
    ||| u == 0x2028
    ||| u == 0x2029
    ||| u == 0x202F
    ||| u == 0x205F
    ||| u == 0x3000
}

/// The decimal digits `0` to `9`.
pub open spec fn is_digit(c: char) -> bool {
    0x30 <= c as u32 <= 0x39
}

/// The value of a digit.
pub open spec fn digit_value(c: char) -> nat {
    (c as u32 - 0x30) as nat
}

/// Index of the first `c` in `s`, or `s.len()` where `s` holds none.
pub open spec fn find(s: Seq<char>, c: char) -> int
    decreases s.len(),
{
    if s.len() == 0 || s[0] == c {
        0
    } else {
        1 + find(s.drop_first(), c)
    }
}

/// `s` without the white space it begins with.
pub open spec fn trim_start(s: Seq<char>) -> Seq<char>
    decreases s.len(),
{
    if s.len() > 0 && is_space(s[0]) {
        trim_start(s.drop_first())
    } else {
        s
    }
}

/// `s` without the white space it ends with.
pub open spec fn trim_end(s: Seq<char>) -> Seq<char>
    decreases s.len(),
{
    if s.len() > 0 && is_space(s.last()) {
        trim_end(s.drop_last())
    } else {
        s
    }
}

/// `s` without the white space at either end.
pub open spec fn trim(s: Seq<char>) -> Seq<char> {
    trim_end(trim_start(s))
}

/// The number that a run of digits writes, most significant digit first.
pub open spec fn digits_value(s: Seq<char>) -> nat
    decreases s.len(),
{
    if s.len() == 0 {
        0
    } else {
        digits_value(s.drop_last()) * 10 + digit_value(s.last())
    }
}

/// Whether `s` holds digits only.
pub open spec fn all_digits(s: Seq<char>) -> bool {
    forall|i: int| 0 <= i < s.len() ==> is_digit(#[trigger] s[i])
}

/// The number that `s` writes: an optional `+`, then one digit or more, and
/// nothing else; none where the value does not fit a `usize`.
pub open spec fn number(s: Seq<char>) -> Option<nat> {
    let digits = if s.len() > 0 && s[0] == '+' {
        s.drop_first()
    } else {
        s
    };
    if digits.len() > 0 && all_digits(digits) && digits_value(digits) <= usize::MAX {
        Some(digits_value(digits))
    } else {
        None
    }
}

/// The pages from `lo` to `hi`, both included.
pub open spec fn span(lo: nat, hi: nat) -> Set<nat> {
    Set::new(|p: nat| lo <= p <= hi)
}

/// The reason given where `piece` should be a number and is none.
pub open spec fn invalid_number_text(piece: Seq<char>) -> Seq<char> {
    "invalid number: "@ + piece
}

/// The reason given where a page number is zero.
pub open spec fn below_one_text() -> Seq<char> {
    "page numbers must be 1 or greater"@
}

/// The reason given where a range ends before it starts.
pub open spec fn inverted_text(start: nat, end: nat) -> Seq<char> {
    "invalid range: start ("@ + decimal(start) + ") > end ("@ + decimal(end) + ")"@
}

/// The reason given where an expression names no page at all.
pub open spec fn nothing_selected_text() -> Seq<char> {
    "no valid pages specified"@
}

/// The reason given where page `page`, counted from one, is selected from a
/// document of `total` pages that has no such page.
pub open spec fn out_of_range_text(page: nat, total: nat) -> Seq<char> {
    "page "@ + decimal(page) + " is out of range (document has "@ + decimal(total) + " pages)"@
}

/// The pages, counted from zero, that one trimmed token selects, or what is
/// wrong with it. A range is read end by end: the start is judged first.
pub open spec fn token_pages(part: Seq<char>) -> Result<Set<nat>, Seq<char>> {
    if part.len() == 0 {
        Ok(Set::empty())
    } else if find(part, '-') < part.len() {
        let start = part.take(find(part, '-'));
        let end = part.skip(find(part, '-') + 1);
        match number(trim(start)) {
            None => Err(invalid_number_text(start)),
            Some(a) => match number(trim(end)) {
                None => Err(invalid_number_text(end)),
                Some(b) => if a == 0 || b == 0 {
                    Err(below_one_text())
                } else if a > b {
                    Err(inverted_text(a, b))
                } else {
                    Ok(span((a - 1) as nat, (b - 1) as nat))
                },
            },
        }
    } else {
        match number(part) {
            None => Err(invalid_number_text(part)),
            Some(n) => if n == 0 {
                Err(below_one_text())
            } else {
                Ok(span((n - 1) as nat, (n - 1) as nat))
            },
        }
    }
}

/// The pages that the tokens of `s` select together, or what is wrong with the
/// first token that is wrong.
pub open spec fn expression_pages(s: Seq<char>) -> Result<Set<nat>, Seq<char>>
    decreases s.len(),
{
    let cut = find(s, ',');
    match token_pages(trim(s.take(cut))) {
        Err(reason) => Err(reason),
        Ok(first) => if 0 <= cut < s.len() {
            match expression_pages(s.skip(cut + 1)) {
                Err(reason) => Err(reason),
                Ok(rest) => Ok(first.union(rest)),
            }
        } else {
            Ok(first)
        },
    }
}

/// What the expression `s` selects: its pages, which are at least one, or the
/// reason why it is refused.
pub open spec fn selection_of(s: Seq<char>) -> Result<Set<nat>, Seq<char>> {
    match expression_pages(s) {
        Err(reason) => Err(reason),
        Ok(pages) => if pages =~= Set::empty() {
            Err(nothing_selected_text())
        } else {
            Ok(pages)
        },
    }
}

/// `find` gives the one index before which `c` does not occur and at which it
/// does, or the length.
proof fn lemma_find_is(s: Seq<char>, c: char, k: int)
    requires
        0 <= k <= s.len(),
        forall|i: int| 0 <= i < k ==> s[i] != c,
        k < s.len() ==> s[k] == c,
    ensures
        find(s, c) == k,
    decreases s.len(),
{
    if s.len() == 0 || s[0] == c {
    } else {
        lemma_find_is(s.drop_first(), c, k - 1);
    }
}

/// `trim_start` drops exactly the white space that `s` begins with.
proof fn lemma_trim_start_is(s: Seq<char>, a: int)
    requires
        0 <= a <= s.len(),
        forall|i: int| 0 <= i < a ==> is_space(s[i]),
        a < s.len() ==> !is_space(s[a]),
    ensures
        trim_start(s) == s.skip(a),
    decreases s.len(),
{
    if s.len() > 0 && is_space(s[0]) {
        lemma_trim_start_is(s.drop_first(), a - 1);
        assert(s.drop_first().skip(a - 1) =~= s.skip(a));
    } else {
        assert(s.skip(0) =~= s);
    }
}

/// `trim_end` drops exactly the white space that `s` ends with.
proof fn lemma_trim_end_is(s: Seq<char>, b: int)
    requires
        0 <= b <= s.len(),
        forall|i: int| b <= i < s.len() ==> is_space(s[i]),
        b > 0 ==> !is_space(s[b - 1]),
    ensures
        trim_end(s) == s.take(b),
    decreases s.len(),
{
    if s.len() > 0 && is_space(s.last()) {
        lemma_trim_end_is(s.drop_last(), b);
        assert(s.drop_last().take(b) =~= s.take(b));
    } else {
        assert(s.take(s.len() as int) =~= s);
    }
}

/// Whether `c` is white space.
fn space(c: char) -> (b: bool)
    ensures
        b == is_space(c),
{
    let u: u32 = c as u32;
    (0x09 <= u && u <= 0x0D) || u == 0x20 || u == 0x85 || u == 0xA0 || u == 0x1680 || (0x2000 <= u
        && u <= 0x200A) || u == 0x2028 || u == 0x2029 || u == 0x202F || u == 0x205F || u == 0x3000
}

/// Finds the first `c` in `v[from..to]`.
fn find_in(v: &Vec<char>, from: usize, to: usize, c: char) -> (k: usize)
    requires
        from <= to <= v.len(),
    ensures
        from <= k <= to,
        k - from == find(v@.subrange(from as int, to as int), c),
{
    let mut k: usize = from;
    while k < to && v[k] != c
        invariant
            from <= k <= to <= v.len(),
            forall|i: int| from <= i < k ==> v@[i] != c,
        decreases to - k,
    {
        k += 1;
    }
    proof {
        lemma_find_is(v@.subrange(from as int, to as int), c, k - from);
    }
    k
}

/// Trims `v[from..to]`: the bounds of what is left.
fn trim_in(v: &Vec<char>, from: usize, to: usize) -> (ends: (usize, usize))
    requires
        from <= to <= v.len(),
    ensures
        from <= ends.0 <= ends.1 <= to,
        v@.subrange(ends.0 as int, ends.1 as int) == trim(v@.subrange(from as int, to as int)),
{
    let mut a: usize = from;
    while a < to && space(v[a])
        invariant
            from <= a <= to <= v.len(),
            forall|i: int| from <= i < a ==> is_space(v@[i]),
        decreases to - a,
    {
        a += 1;
    }
    let mut b: usize = to;
    while b > a && space(v[b - 1])
        invariant
            a <= b <= to <= v.len(),
            forall|i: int| b <= i < to ==> is_space(v@[i]),
        decreases b,
    {
        b -= 1;
    }
    proof {
        let whole = v@.subrange(from as int, to as int);
        lemma_trim_start_is(whole, a - from);
        let rest = whole.skip(a - from);
        assert(rest =~= v@.subrange(a as int, to as int));
        lemma_trim_end_is(rest, b - a);
        assert(rest.take(b - a) =~= v@.subrange(a as int, b as int));
    }
    (a, b)
}

/// More digits never write a smaller number.
proof fn lemma_prefix_value(s: Seq<char>, k: int)
    requires
        0 <= k <= s.len(),
    ensures
        digits_value(s.take(k)) <= digits_value(s),
    decreases s.len(),
{
    if k == s.len() {
        assert(s.take(k) =~= s);
    } else {
        lemma_prefix_value(s.drop_last(), k);
        assert(s.drop_last().take(k) =~= s.take(k));
    }
}

/// Reads `v[from..to]` as a number.
fn number_in(v: &Vec<char>, from: usize, to: usize) -> (n: Option<usize>)
    requires
        from <= to <= v.len(),
    ensures
        match number(v@.subrange(from as int, to as int)) {
            Some(value) => n == Some(value as usize),
            None => n is None,
        },
{
    let ghost text = v@.subrange(from as int, to as int);
    let mut i: usize = from;
    if i < to && v[i] == '+' {
        i += 1;
    }
    let first: usize = i;
    let ghost digits = v@.subrange(first as int, to as int);
    assert(digits =~= if text.len() > 0 && text[0] == '+' {
        text.drop_first()
    } else {
        text
    });
    if i == to {
        return None;
    }
    let mut value: usize = 0;
    while i < to
        invariant
            from <= first <= i <= to <= v.len(),
            first < to,
            text == v@.subrange(from as int, to as int),
            digits == v@.subrange(first as int, to as int),
            digits == if text.len() > 0 && text[0] == '+' {
                text.drop_first()
            } else {
                text
            },
            forall|j: int| first <= j < i ==> is_digit(v@[j]),
            value == digits_value(v@.subrange(first as int, i as int)),
        decreases to - i,
    {
        let u: u32 = v[i] as u32;
        if u < 0x30 || u > 0x39 {
            assert(!is_digit(digits[i - first]));
            return None;
        }
        let d: usize = (u - 0x30) as usize;
        let ghost longer = v@.subrange(first as int, i + 1);
        assert(longer.drop_last() =~= v@.subrange(first as int, i as int));
        assert(longer.last() == v@[i as int]);
        assert(digits_value(longer) == value * 10 + d);
        if value > (usize::MAX - d) / 10 {
            proof {
                lemma_prefix_value(digits, i + 1 - first);
                assert(digits.take(i + 1 - first) =~= longer);
            }
            return None;
        }
        value = value * 10 + d;
        i += 1;
    }
    assert(v@.subrange(first as int, i as int) =~= digits);
    assert(all_digits(digits));
    Some(value)
}

/// The refusal of `input[from..to]`, counted in characters, as a number.
fn invalid_number(input: &str, from: usize, to: usize) -> (e: AppError)
    requires
        from <= to <= input@.len(),
    ensures
        e@ == Failure::InvalidPageRange(
            invalid_number_text(input@.subrange(from as int, to as int)),
        ),
{
    let mut text = String::from_str("invalid number: ");
    text.append(input.substring_char(from, to));
    AppError::InvalidPageRange(text)
}

/// The refusal of page zero.
fn below_one() -> (e: AppError)
    ensures
        e@ == Failure::InvalidPageRange(below_one_text()),
{
    AppError::InvalidPageRange(String::from_str("page numbers must be 1 or greater"))
}

/// The refusal of a range that ends before it starts.
fn inverted(start: usize, end: usize) -> (e: AppError)
    ensures
        e@ == Failure::InvalidPageRange(inverted_text(start as nat, end as nat)),
{
    let mut text = String::from_str("invalid range: start (");
    append_decimal(&mut text, start);
    text.append(") > end (");
    append_decimal(&mut text, end);
    text.append(")");
    AppError::InvalidPageRange(text)
}

/// What a token yields in the selection: no page, or the pages `lo..=hi`.
spec fn yield_of(found: Option<(usize, usize)>) -> Set<nat> {
    match found {
        None => Set::empty(),
        Some((lo, hi)) => span(lo as nat, hi as nat),
    }
}

/// Reads the trimmed token `v[from..to]`, where `v` holds the characters of `input`.
fn token_in(input: &str, v: &Vec<char>, from: usize, to: usize) -> (r: Result<
    Option<(usize, usize)>,
    AppError,
>)
    requires
        v@ == input@,
        from <= to <= v.len(),
    ensures
        match token_pages(v@.subrange(from as int, to as int)) {
            Err(reason) => r matches Err(e) && e@ == Failure::InvalidPageRange(reason),
            Ok(pages) => r matches Ok(found) && pages == yield_of(found) && (found matches Some(
                (lo, hi),
            ) ==> lo <= hi < usize::MAX),
        },
{
    let ghost part = v@.subrange(from as int, to as int);
    if from == to {
        return Ok(None);
    }
    let dash = find_in(v, from, to, '-');
    if dash < to {
        assert(part.take(dash - from) =~= v@.subrange(from as int, dash as int));
        assert(part.skip(dash - from + 1) =~= v@.subrange(dash + 1, to as int));
        let (a, b) = trim_in(v, from, dash);
        let start = match number_in(v, a, b) {
            None => {
                return Err(invalid_number(input, from, dash));
            },
            Some(n) => n,
        };
        let (a, b) = trim_in(v, dash + 1, to);
        let end = match number_in(v, a, b) {
            None => {
                return Err(invalid_number(input, dash + 1, to));
            },
            Some(n) => n,
        };
        if start == 0 || end == 0 {
            return Err(below_one());
        }
        if start > end {
            return Err(inverted(start, end));
        }
        Ok(Some((start - 1, end - 1)))
    } else {
        let page = match number_in(v, from, to) {
            None => {
                return Err(invalid_number(input, from, to));
            },
            Some(n) => n,
        };
        if page == 0 {
            return Err(below_one());
        }
        Ok(Some((page - 1, page - 1)))
    }
}

/// The pages of a set as numbers.
spec fn numbered(pages: Set<usize>) -> Set<nat> {
    Set::new(|p: nat| p <= usize::MAX && pages.contains(p as usize))
}

/// Whether every page lies below the greatest `usize`.
spec fn bounded(pages: Set<usize>) -> bool {
    forall|p: usize| pages.contains(p) ==> p < usize::MAX
}

/// The pages found so far together with what the rest of an expression gives.
spec fn joined(found: Set<nat>, rest: Result<Set<nat>, Seq<char>>) -> Result<Set<nat>, Seq<char>> {
    match rest {
        Err(reason) => Err(reason),
        Ok(pages) => Ok(found.union(pages)),
    }
}

/// Puts what a token yields into the set, page by page.
fn insert_pages(pages: &mut HashSet<usize>, found: Option<(usize, usize)>)
    requires
        found matches Some((lo, hi)) ==> lo <= hi < usize::MAX,
        bounded(old(pages)@),
    ensures
        numbered(final(pages)@) == numbered(old(pages)@).union(yield_of(found)),
        bounded(final(pages)@),
{
    broadcast use vstd::std_specs::hash::group_hash_axioms;

    match found {
        None => {
            assert(numbered(pages@) =~= numbered(pages@).union(yield_of(found)));
        },
        Some((lo, hi)) => {
            let ghost before = pages@;
            let mut page: usize = lo;
            while page <= hi
                invariant
                    lo <= page <= hi + 1,
                    hi < usize::MAX,
                    pages@ =~= before.union(Set::new(|p: usize| lo <= p < page)),
                decreases hi + 1 - page,
            {
                let ghost so_far = pages@;
                pages.insert(page);
                assert(pages@ == so_far.insert(page));
                page += 1;
            }
            assert(numbered(pages@) =~= numbered(before).union(yield_of(found)));
            assert(bounded(pages@));
        },
    }
}

/// A set of pages, counted from zero, that is never empty.
#[derive(Debug)]
pub struct PageSelection {
    pages: HashSet<usize>,
}

impl View for PageSelection {
    type V = Set<nat>;

    closed spec fn view(&self) -> Set<nat> {
        numbered(self.pages@)
    }
}

impl PageSelection {
    #[verifier::type_invariant]
    spec fn well_formed(self) -> bool {
        bounded(self.pages@) && exists|p: usize| self.pages@.contains(p)
    }

    /// Reads a page expression. It is accepted where every token is a page
    /// number or a range, each number at least one, no range running backwards,
    /// and at least one page is named; else the first fault found, token by
    /// token from the left, is reported.
    pub fn from_str(input: &str) -> (r: Result<PageSelection, AppError>)
        ensures
            match selection_of(input@) {
                Ok(pages) => r matches Ok(selection) && selection@ == pages,
                Err(reason) => r matches Err(e) && e@ == Failure::InvalidPageRange(reason),
            },
    {
        let v = chars_of(input);
        let mut pages: HashSet<usize> = HashSet::new();
        let mut pos: usize = 0;
        assert(input@.skip(0) =~= input@);
        assert(numbered(pages@) =~= Set::<nat>::empty());
        assert(joined(numbered(pages@), expression_pages(input@)) == expression_pages(input@)) by {
            match expression_pages(input@) {
                Ok(rest) => {
                    assert(numbered(pages@).union(rest) =~= rest);
                },
                Err(_) => {},
            }
        }
        loop
            invariant_except_break
                pos <= v.len(),
                expression_pages(input@) == joined(
                    numbered(pages@),
                    expression_pages(input@.skip(pos as int)),
                ),
            invariant
                v@ == input@,
                bounded(pages@),
            ensures
                expression_pages(input@) == Ok::<Set<nat>, Seq<char>>(numbered(pages@)),
            decreases v.len() - pos,
        {
            let ghost rest = input@.skip(pos as int);
            let ghost before = pages@;
            let cut = find_in(&v, pos, v.len(), ',');
            let (a, b) = trim_in(&v, pos, cut);
            proof {
                assert(v@.subrange(pos as int, v.len() as int) =~= rest);
                assert(rest.take(cut - pos) =~= v@.subrange(pos as int, cut as int));
                if cut < v.len() {
                    assert(rest.skip(cut - pos + 1) =~= input@.skip(cut + 1));
                }
            }
            let found = match token_in(input, &v, a, b) {
                Err(e) => {
                    return Err(e);
                },
                Ok(found) => found,
            };
            insert_pages(&mut pages, found);
            proof {
                let first = yield_of(found);
                if cut < v.len() {
                    match expression_pages(input@.skip(cut + 1)) {
                        Ok(later) => {
                            assert(numbered(before).union(first.union(later)) =~= numbered(
                                pages@,
                            ).union(later));
                        },
                        Err(_) => {},
                    }
                }
            }
            if cut >= v.len() {
                break ;
            }
            pos = cut + 1;
        }
        if pages.is_empty() {
            assert(numbered(pages@) =~= Set::<nat>::empty());
            return Err(
                AppError::InvalidPageRange(String::from_str("no valid pages specified")),
            );
        }
        proof {
            if forall|p: usize| !pages@.contains(p) {
                assert(pages@ =~= Set::<usize>::empty());
            }
            let p = choose|p: usize| pages@.contains(p);
            assert(numbered(pages@).contains(p as nat));
            let made = PageSelection { pages };
            assert(made.pages@.contains(p));
        }
        Ok(PageSelection { pages })
    }

    /// Whether `page`, counted from zero, is selected.
    pub fn contains(&self, page: usize) -> (found: bool)
        ensures
            found == self@.contains(page as nat),
    {
        broadcast use vstd::std_specs::hash::group_hash_axioms;

        self.pages.contains(&page)
    }

    /// The last page selected.
    pub fn highest(&self) -> (page: usize)
        ensures
            is_greatest(self@, page as nat),
            page < usize::MAX,
    {
        broadcast use vstd::std_specs::hash::group_hash_axioms;

        proof {
            use_type_invariant(self);
        }
        let mut last: usize = 0;
        let ghost mut count: int = 0;
        for page in it: self.pages.iter()
            invariant
                it.seq().unref().to_set() == self.pages@,
                count == it.index(),
                forall|p: usize|
                    #![trigger self.pages@.contains(p)]
                    self.pages@.contains(p) ==> exists|i: int|
                        0 <= i < it.seq().len() && *(#[trigger] it.seq()[i]) == p,
                forall|i: int| 0 <= i < count ==> *(#[trigger] it.seq()[i]) <= last,
                count == 0 ==> last == 0,
                count > 0 ==> self.pages@.contains(last),
        {
            proof {
                let walked = it.seq().unref();
                assert(walked[count] == *page);
                assert(walked.contains(*page));
                assert(walked.to_set().contains(*page));
                assert(self.pages@.contains(*page));
                count = count + 1;
            }
            if *page > last {
                last = *page;
            }
        }
        proof {
            let some = choose|p: usize| self.pages@.contains(p);
            assert(self.pages@.contains(some));
            assert(count > 0);
            assert forall|p: usize| self.pages@.contains(p) implies p <= last by {}
        }
        last
    }

    /// Holds the selection against a document of `total_pages` pages: every
    /// page selected must exist. The page reported is the last one selected,
    /// counted from one.
    pub fn validate(&self, total_pages: usize) -> (r: Result<(), AppError>)
        ensures
            r is Ok <==> forall|p: nat| self@.contains(p) ==> p < total_pages,
            r matches Err(e) ==> exists|last: nat|
                is_greatest(self@, last) && e@ == Failure::InvalidPageRange(
                    out_of_range_text(last + 1, total_pages as nat),
                ),
    {
        let last = self.highest();
        if last >= total_pages {
            let mut text = String::from_str("page ");
            append_decimal(&mut text, last + 1);
            text.append(" is out of range (document has ");
            append_decimal(&mut text, total_pages);
            text.append(" pages)");
            return Err(AppError::InvalidPageRange(text));
        }
        Ok(())
    }
}

/// Whether `last` is in `pages` and no page of `pages` comes after it.
pub open spec fn is_greatest(pages: Set<nat>, last: nat) -> bool {
    pages.contains(last) && forall|p: nat| pages.contains(p) ==> p <= last
}

/// Whether `page` is to be rendered: every page is where nothing was selected.
pub open spec fn is_selected(selection: Option<Set<nat>>, page: nat) -> bool {
    match selection {
        None => true,
        Some(pages) => pages.contains(page),
    }
}

/// The pages below `total` that are to be rendered, in ascending order.
pub open spec fn page_order(selection: Option<Set<nat>>, total: nat) -> Seq<nat>
    decreases total,
{
    if total == 0 {
        Seq::empty()
    } else if is_selected(selection, (total - 1) as nat) {
        page_order(selection, (total - 1) as nat).push((total - 1) as nat)
    } else {
        page_order(selection, (total - 1) as nat)
    }
}

/// The selection as a set, where there is one.
pub open spec fn selected_set(selection: Option<PageSelection>) -> Option<Set<nat>> {
    match selection {
        None => None,
        Some(pages) => Some(pages@),
    }
}

/// Whether `list` holds the numbers of `pages`, one for one.
pub open spec fn lists(list: Seq<usize>, pages: Seq<nat>) -> bool {
    list.len() == pages.len() && forall|i: int| 0 <= i < list.len() ==> list[i] as nat == pages[i]
}

/// The pages of a document of `total_pages` pages that are to be rendered, in
/// ascending order: all of them where nothing was selected.
pub fn pages_in_order(selection: &Option<PageSelection>, total_pages: usize) -> (list: Vec<usize>)
    ensures
        lists(list@, page_order(selected_set(*selection), total_pages as nat)),
{
    let mut list: Vec<usize> = Vec::new();
    let mut page: usize = 0;
    while page < total_pages
        invariant
            page <= total_pages,
            lists(list@, page_order(selected_set(*selection), page as nat)),
        decreases total_pages - page,
    {
        let wanted = match selection {
            None => true,
            Some(pages) => pages.contains(page),
        };
        if wanted {
            list.push(page);
        }
        page += 1;
    }
    list
}

} // verus!
