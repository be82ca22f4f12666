//! Parsers for the two textual option formats: a column selection written as
//! a list of numbers and ranges, and a single-character field delimiter.
//!
//! Only the range-list grammar itself is trusted (the outside parser turns a
//! string into numbers and start/step/end spans); the spans are expanded
//! into column numbers by verified code, which rejects a span whose walk
//! would step past the machine's largest number instead of letting the
//! arithmetic fail.

use vstd::prelude::*;

use std::collections::BTreeSet;

verus! {

broadcast use vstd::laws_cmp::group_laws_cmp, vstd::std_specs::btree::group_btree_axioms;

/// Why an option string was rejected.
#[derive(Debug, Clone, Copy, PartialEq, Eq, Structural)]
pub enum ParseError {
    /// The column list is not a valid list of numbers and ranges, or a range
    /// in it runs past the machine's largest number.
    InvalidColumns,
    /// The delimiter is not exactly one ASCII character.
    InvalidDelimiter,
}

/// One element of a parsed column list: a single number, or a span written
/// `start:end` or `start:step:end`.
#[derive(Debug, Clone, Copy, PartialEq, Eq, Structural)]
pub enum RangeItem {
    /// A lone column number.
    Single(usize),
    /// A span: start, step, end.
    Span(usize, usize, usize),
}

/// What the range-list grammar denotes on a string: the singles and spans
/// listed, in order, or nothing when the string is not a valid list.
pub uninterp spec fn parsed_columns(s: Seq<char>) -> Option<Seq<RangeItem>>;

/// The set of input columns selected as coordinates (column numbers start
/// at one).
#[derive(Debug)]
pub struct ColumnsSpecifier(pub BTreeSet<usize>);

/// The field delimiter of a tabular file: one ASCII byte.
#[derive(Debug)]
pub struct DelimiterSpecifier(pub u8);

/// Relies on number_range's `NumberRange::parse_str` (with its default
/// separators): parses a comma-separated list of numbers and colon spans,
/// such as "3,4,10:5:100", into the elements the list names; the result is
/// a function of the string alone.  Only this parse is trusted — it never
/// walks a span, so it is total; the walking is done by verified code.
#[verifier::external_body]
fn parse_number_list(s: &str) -> (r: Option<Vec<RangeItem>>)
    ensures
        match r {
            Some(v) => parsed_columns(s@) == Some(v@),
            None => parsed_columns(s@) is None,
        },
{
    match number_range::NumberRange::<usize>::default().parse_str(s) {
        Ok(nr) => Some(
            nr.numbers
                .iter()
                .map(|n| match n {
                    number_range::Number::Single(v) => RangeItem::Single(*v),
                    number_range::Number::Range(a, b, e) => RangeItem::Span(*a, *b, *e),
                })
                .collect(),
        ),
        Err(_) => None,
    }
}

/// The numbers a span denotes: from `start` by `step` while not past `end`.
/// An inverted span, or one with a zero step, denotes nothing.
pub open spec fn spec_span_numbers(start: int, step: int, end: int) -> Seq<usize>
    decreases end + 1 - start,
{
    if start > end || step < 1 {
        Seq::empty()
    } else if start + step > end {
        seq![start as usize]
    } else {
        seq![start as usize] + spec_span_numbers(start + step, step, end)
    }
}

/// Whether walking the span computes a next start past the machine's
/// largest number (which is where the walk would fail).
pub open spec fn spec_span_overflows(start: int, step: int, end: int) -> bool
    decreases end + 1 - start,
{
    if start > end || step < 1 {
        false
    } else if start + step > usize::MAX {
        true
    } else if start + step > end {
        false
    } else {
        spec_span_overflows(start + step, step, end)
    }
}

/// The numbers one parsed element denotes.
pub open spec fn spec_item_numbers(it: RangeItem) -> Seq<usize> {
    match it {
        RangeItem::Single(v) => seq![v],
        RangeItem::Span(a, b, e) => spec_span_numbers(a as int, b as int, e as int),
    }
}

/// Whether one parsed element can be walked on this machine.
pub open spec fn spec_item_ok(it: RangeItem) -> bool {
    match it {
        RangeItem::Single(_) => true,
        RangeItem::Span(a, b, e) => !spec_span_overflows(a as int, b as int, e as int),
    }
}

/// Whether every parsed element can be walked.
pub open spec fn spec_items_ok(items: Seq<RangeItem>) -> bool {
    forall|i: int| 0 <= i < items.len() ==> spec_item_ok(#[trigger] items[i])
}

/// All numbers the first `k` parsed elements denote, in order.
pub open spec fn spec_expanded(items: Seq<RangeItem>, k: int) -> Seq<usize>
    decreases k,
{
    if k <= 0 {
        Seq::empty()
    } else {
        spec_expanded(items, k - 1) + spec_item_numbers(items[k - 1])
    }
}

/// Expand the parsed elements into the numbers they denote.  A span whose
/// walk would step past the machine's largest number has no full expansion
/// here: the whole list is rejected rather than cut short.
fn expand_items(items: &Vec<RangeItem>) -> (r: Option<Vec<usize>>)
    ensures
        match r {
            Some(v) => spec_items_ok(items@) && v@ == spec_expanded(items@, items@.len() as int),
            None => !spec_items_ok(items@),
        },
{
    let mut nums: Vec<usize> = Vec::new();
    let mut i: usize = 0;
    while i < items.len()
        invariant
            i <= items@.len(),
            forall|k: int| 0 <= k < i ==> spec_item_ok(#[trigger] items@[k]),
            nums@ == spec_expanded(items@, i as int),
        decreases items@.len() - i,
    {
        let ghost base = nums@;
        match items[i] {
            RangeItem::Single(v) => {
                nums.push(v);
                proof {
                    assert(nums@ =~= base + seq![v]);
                }
            },
            RangeItem::Span(a, b, e) => {
                if a <= e && b >= 1 {
                    let mut s = a;
                    let ghost mut done: Seq<usize> = Seq::empty();
                    loop
                        invariant_except_break
                            a <= s <= e,
                            b >= 1,
                            i < items@.len(),
                            items@[i as int] == RangeItem::Span(a, b, e),
                            forall|k: int| 0 <= k < i ==> spec_item_ok(#[trigger] items@[k]),
                            nums@ == base + done,
                            spec_span_numbers(a as int, b as int, e as int) == done
                                + spec_span_numbers(s as int, b as int, e as int),
                            spec_span_overflows(a as int, b as int, e as int)
                                == spec_span_overflows(s as int, b as int, e as int),
                        ensures
                            i < items@.len(),
                            items@[i as int] == RangeItem::Span(a, b, e),
                            forall|k: int| 0 <= k < i ==> spec_item_ok(#[trigger] items@[k]),
                            nums@ == base + spec_span_numbers(a as int, b as int, e as int),
                            !spec_span_overflows(a as int, b as int, e as int),
                        decreases e - s,
                    {
                        nums.push(s);
                        proof {
                            done = done.push(s);
                            assert(nums@ =~= base + done);
                        }
                        if b > usize::MAX - s {
                            proof {
                                assert(spec_span_overflows(s as int, b as int, e as int));
                                assert(!spec_item_ok(items@[i as int]));
                            }
                            return None;
                        }
                        let ns = s + b;
                        if ns > e {
                            proof {
                                assert(spec_span_numbers(s as int, b as int, e as int) =~= seq![
                                    s,
                                ]);
                                assert(spec_span_numbers(a as int, b as int, e as int) =~= (done
                                    .drop_last()) + seq![s]);
                                assert(done =~= done.drop_last() + seq![s]);
                            }
                            break ;
                        }
                        proof {
                            assert(spec_span_numbers(s as int, b as int, e as int) == seq![s]
                                + spec_span_numbers(ns as int, b as int, e as int));
                            assert(done.drop_last() + (seq![s] + spec_span_numbers(
                                ns as int,
                                b as int,
                                e as int,
                            )) =~= done + spec_span_numbers(ns as int, b as int, e as int));
                        }
                        s = ns;
                    }
                }
            },
        }
        proof {
            assert(nums@ =~= spec_expanded(items@, i as int + 1));
        }
        i += 1;
    }
    proof {
        assert(items@.len() as int == items@.len());
    }
    Some(nums)
}

impl ColumnsSpecifier {
    /// Parse a column list.  Succeeds exactly on the strings the range-list
    /// grammar accepts whose spans stay within the machine's numbers, and
    /// then holds exactly the numbers the list denotes.
    pub fn from_str(s: &str) -> (r: Result<ColumnsSpecifier, ParseError>)
        ensures
            r is Ok <==> match parsed_columns(s@) {
                Some(items) => spec_items_ok(items),
                None => false,
            },
            match r {
                Ok(cs) => match parsed_columns(s@) {
                    Some(items) => forall|x: usize|
                        cs.0@.contains(x) <==> spec_expanded(items, items.len() as int).contains(
                            x,
                        ),
                    None => false,
                },
                Err(e) => e == ParseError::InvalidColumns,
            },
    {
        let parsed = match parse_number_list(s) {
            Some(items) => items,
            None => {
                return Err(ParseError::InvalidColumns);
            },
        };
        let v = match expand_items(&parsed) {
            Some(nums) => nums,
            None => {
                return Err(ParseError::InvalidColumns);
            },
        };
        let ghost vs = v@;
        let mut set: BTreeSet<usize> = BTreeSet::new();
        let mut i: usize = 0;
        while i < v.len()
            invariant
                v@ == vs,
                i <= vs.len(),
                forall|x: usize| set@.contains(x) <==> vs.take(i as int).contains(x),
            decreases v.len() - i,
        {
            let ghost prev = set@;
            set.insert(v[i]);
            proof {
                assert(set@ == prev.insert(vs[i as int]));
                assert forall|x: usize|
                    set@.contains(x) <==> vs.take(i as int + 1).contains(x) by {
                    if set@.contains(x) {
                        if x == vs[i as int] {
                            assert(vs.take(i as int + 1)[i as int] == x);
                        } else {
                            assert(prev.contains(x));
                            let k = choose|k: int|
                                0 <= k < i && #[trigger] vs.take(i as int)[k] == x;
                            assert(vs.take(i as int + 1)[k] == x);
                        }
                    }
                    if vs.take(i as int + 1).contains(x) {
                        let k = choose|k: int|
                            0 <= k < i + 1 && #[trigger] vs.take(i as int + 1)[k] == x;
                        if k < i {
                            assert(vs.take(i as int)[k] == x);
                        } else {
                            assert(x == vs[i as int]);
                        }
                    }
                }
            }
            i += 1;
        }
        proof {
            assert(vs.take(vs.len() as int) =~= vs);
        }
        Ok(ColumnsSpecifier(set))
    }
}

impl DelimiterSpecifier {
    /// Parse a delimiter.  Succeeds exactly on strings of one ASCII
    /// character, and then holds that character's byte.
    pub fn from_str(s: &str) -> (r: Result<DelimiterSpecifier, ParseError>)
        ensures
            r is Ok <==> (vstd::string::is_ascii(s) && s@.len() == 1),
            match r {
                Ok(ds) => s@.len() == 1 && ds.0 == s@[0] as u8,
                Err(e) => e == ParseError::InvalidDelimiter,
            },
    {
        proof {
            vstd::string::is_ascii_spec_bytes(s);
        }
        if s.is_ascii() && s.len() == 1 {
            let b = s.as_bytes();
            Ok(DelimiterSpecifier(b[0]))
        } else {
            Err(ParseError::InvalidDelimiter)
        }
    }
}

} // verus!
