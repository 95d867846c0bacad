//! The written form of a domain and of a center.
//!
//! A domain is one number, or two with a colon between them. A center is one
//! point, or two with a colon between them; a point is two numbers with a
//! comma between them. This module finds the fields of such a text. It does
//! not read the numbers.

use vstd::prelude::*;
use crate::animation::Span;
use crate::error::ConfigError;

verus! {

/// The byte that parts the two ends of a range, a colon.
pub const RANGE_MARK: u8 = 58;

/// The byte that parts the two numbers of a point, a comma.
pub const POINT_MARK: u8 = 44;

/// A stretch of a text: the bytes from `start` up to, not including, `end`.
#[derive(Clone, Copy, Debug, PartialEq, Eq, Structural)]
pub struct Field {
    pub start: usize,
    pub end: usize,
}

/// The two fields of a point: real part, then imaginary part.
#[derive(Clone, Copy, Debug, PartialEq, Eq, Structural)]
pub struct PointFields {
    pub re: Field,
    pub im: Field,
}

/// Whether `mark` occurs in `text` from `from` up to, not including, `limit`.
pub open spec fn has_mark(text: Seq<u8>, mark: u8, from: int, limit: int) -> bool {
    exists|i: int| from <= i < limit && #[trigger] text[i] == mark
}

/// `field` is the field that ends at the first `mark` at or after its start,
/// or at `limit` where no mark comes before it.
pub open spec fn is_field(text: Seq<u8>, mark: u8, limit: int, field: Field) -> bool {
    &&& field.start <= field.end <= limit <= text.len()
    &&& !has_mark(text, mark, field.start as int, field.end as int)
    &&& (field.end == limit || text[field.end as int] == mark)
}

/// `first` and `second` are the first two fields of the stretch `within`,
/// parted by `mark`. Anything after a second mark belongs to neither.
pub open spec fn are_fields(
    text: Seq<u8>,
    mark: u8,
    within: Field,
    first: Field,
    second: Field,
) -> bool {
    &&& first.start == within.start
    &&& is_field(text, mark, within.end as int, first)
    &&& first.end < within.end
    &&& second.start == first.end + 1
    &&& is_field(text, mark, within.end as int, second)
}

/// The stretch that is the whole of a text.
pub open spec fn whole_of(text: Seq<u8>) -> Field {
    Field { start: 0, end: text.len() as usize }
}

/// `span` names the fields of a text that holds one value or a range.
pub open spec fn is_span_of(text: Seq<u8>, span: Span<Field>) -> bool {
    match span {
        Span::Fixed(only) => only == whole_of(text) && !has_mark(
            text,
            RANGE_MARK,
            0,
            text.len() as int,
        ),
        Span::Range { start, end } => are_fields(text, RANGE_MARK, whole_of(text), start, end),
    }
}

/// `point` names the two fields of the point written in the stretch `within`.
pub open spec fn is_point_of(text: Seq<u8>, within: Field, point: PointFields) -> bool {
    are_fields(text, POINT_MARK, within, point.re, point.im)
}

/// Whether a point is written in the stretch `within`: the stretch lies in
/// the text and holds a comma.
pub open spec fn holds_point(text: Seq<u8>, within: Field) -> bool {
    &&& within.start <= within.end <= text.len()
    &&& has_mark(text, POINT_MARK, within.start as int, within.end as int)
}

/// `span` names the fields of a text that holds one point or a range of
/// points.
pub open spec fn is_center_of(text: Seq<u8>, span: Span<PointFields>) -> bool {
    match span {
        Span::Fixed(only) => exists|whole: Field|
            #[trigger] is_span_of(text, Span::Fixed(whole)) && is_point_of(text, whole, only),
        Span::Range { start, end } => exists|first: Field, second: Field|
            #[trigger] is_span_of(text, Span::Range { start: first, end: second }) && is_point_of(
                text,
                first,
                start,
            ) && is_point_of(text, second, end),
    }
}

/// Whether a center is written in a text: each of its one or two parts
/// holds a point.
pub open spec fn holds_center(text: Seq<u8>) -> bool {
    exists|span: Span<Field>|
        #[trigger] is_span_of(text, span) && match span {
            Span::Fixed(only) => holds_point(text, only),
            Span::Range { start, end } => holds_point(text, start) && holds_point(text, end),
        }
}

/// Finds the field that starts at `from` and ends at the first `mark`, or at
/// `limit`.
pub fn scan_field(text: &[u8], from: usize, limit: usize, mark: u8) -> (field: Field)
    requires
        from <= limit <= text@.len(),
    ensures
        field.start == from,
        is_field(text@, mark, limit as int, field),
{
    let mut end: usize = from;
    while end < limit && text[end] != mark
        invariant
            from <= end <= limit <= text@.len(),
            !has_mark(text@, mark, from as int, end as int),
        decreases limit - end,
    {
        end = end + 1;
    }
    Field { start: from, end }
}

/// Finds the first two fields of the stretch `within`, parted by `mark`, or
/// nothing where the stretch holds no mark or does not lie in the text.
pub fn split_fields(text: &[u8], within: Field, mark: u8) -> (fields: Option<(Field, Field)>)
    ensures
        match fields {
            Some((first, second)) => are_fields(text@, mark, within, first, second),
            None => !(within.start <= within.end <= text@.len() && has_mark(
                text@,
                mark,
                within.start as int,
                within.end as int,
            )),
        },
{
    if within.start > within.end || within.end > text.len() {
        return None;
    }
    let first = scan_field(text, within.start, within.end, mark);
    if first.end == within.end {
        return None;
    }
    let second = scan_field(text, first.end + 1, within.end, mark);
    Some((first, second))
}

/// Finds the fields of a text that holds one value or a range: the whole
/// text where it holds no colon, else what stands before the first colon and
/// what follows it up to the next.
pub fn split_span(text: &[u8]) -> (span: Span<Field>)
    ensures
        is_span_of(text@, span),
{
    let whole = Field { start: 0, end: text.len() };
    match split_fields(text, whole, RANGE_MARK) {
        Some((start, end)) => Span::Range { start, end },
        None => Span::Fixed(whole),
    }
}

/// Finds the two fields of the point written in the stretch `within`: what
/// stands before the first comma and what follows it up to the next. A
/// stretch without a comma holds no point.
pub fn split_point(text: &[u8], within: Field) -> (point: Result<PointFields, ConfigError>)
    ensures
        point is Ok <==> holds_point(text@, within),
        match point {
            Ok(fields) => is_point_of(text@, within, fields),
            Err(error) => error == ConfigError::MalformedPoint,
        },
{
    match split_fields(text, within, POINT_MARK) {
        Some((re, im)) => Ok(PointFields { re, im }),
        None => Err(ConfigError::MalformedPoint),
    }
}

/// Finds the fields of a text that holds one point or a range of points.
pub fn split_center(text: &[u8]) -> (center: Result<Span<PointFields>, ConfigError>)
    ensures
        center is Ok <==> holds_center(text@),
        match center {
            Ok(span) => is_center_of(text@, span),
            Err(error) => error == ConfigError::MalformedPoint,
        },
{
    let parts = split_span(text);
    match parts {
        Span::Fixed(whole) => {
            match split_point(text, whole) {
                Ok(only) => Ok(Span::Fixed(only)),
                Err(error) => {
                    proof {
                        lemma_one_span(text@, parts);
                    }
                    Err(error)
                },
            }
        },
        Span::Range { start, end } => {
            let first = match split_point(text, start) {
                Ok(fields) => fields,
                Err(error) => {
                    proof {
                        lemma_one_span(text@, parts);
                    }
                    return Err(error);
                },
            };
            match split_point(text, end) {
                Ok(second) => Ok(Span::Range { start: first, end: second }),
                Err(error) => {
                    proof {
                        lemma_one_span(text@, parts);
                    }
                    Err(error)
                },
            }
        },
    }
}

/// A stretch of a text has one first field.
pub proof fn lemma_one_field(text: Seq<u8>, mark: u8, limit: int, first: Field, second: Field)
    requires
        is_field(text, mark, limit, first),
        is_field(text, mark, limit, second),
        first.start == second.start,
    ensures
        first == second,
{
    if first.end < second.end {
        assert(text[first.end as int] == mark);
    }
    if second.end < first.end {
        assert(text[second.end as int] == mark);
    }
}

/// A text is split in one way only: whoever splits it finds the same fields.
pub proof fn lemma_one_span(text: Seq<u8>, span: Span<Field>)
    requires
        is_span_of(text, span),
    ensures
        forall|other: Span<Field>| #[trigger] is_span_of(text, other) ==> other == span,
{
    assert forall|other: Span<Field>| #[trigger] is_span_of(text, other) implies other == span by {
        let len = whole_of(text).end as int;
        match (span, other) {
            (Span::Range { start: a, end: b }, Span::Range { start: c, end: d }) => {
                lemma_one_field(text, RANGE_MARK, len, a, c);
                lemma_one_field(text, RANGE_MARK, len, b, d);
            },
            (Span::Range { start: a, end: b }, Span::Fixed(_)) => {
                assert(text[a.end as int] == RANGE_MARK);
            },
            (Span::Fixed(_), Span::Range { start: c, end: d }) => {
                assert(text[c.end as int] == RANGE_MARK);
            },
            (Span::Fixed(_), Span::Fixed(_)) => {},
        }
    }
}

} // verus!
