//! Turns a list of bare numbers, or a table of `x`/`y` records, into an
//! ordered sequence of samples.
use vstd::prelude::*;

verus! {

/// Sample coordinates are fixed-point numbers: this many units make one.
pub const UNITS_PER_ONE: i128 = 1_000_000;

/// Every coordinate that normalization produces lies within this magnitude.
pub const COORD_LIMIT: i128 = 100_000_000_000_000_000_000_000_000;

/// One point of the series, both coordinates in millionths.
#[derive(Clone, Copy, Debug, PartialEq, Eq, Structural)]
pub struct Sample {
    pub x: i128,
    pub y: i128,
}

impl Sample {
    pub open spec fn point(self) -> (int, int) {
        (self.x as int, self.y as int)
    }

    pub open spec fn in_range(self) -> bool {
        -COORD_LIMIT <= self.x <= COORD_LIMIT && -COORD_LIMIT <= self.y <= COORD_LIMIT
    }
}

/// The points of a sequence of samples, as mathematical integers.
pub open spec fn points(s: Seq<Sample>) -> Seq<(int, int)> {
    s.map_values(|p: Sample| p.point())
}

pub open spec fn all_in_range(s: Seq<Sample>) -> bool {
    forall|i: int| 0 <= i < s.len() ==> #[trigger] s[i].in_range()
}

/// The value of a record field.
#[derive(Clone, Copy, Debug, PartialEq, Eq, Structural)]
pub enum FieldValue {
    Int(i64),
    /// A fractional number, given in millionths.
    Float(i64),
    /// Anything that is not a number.
    Other,
}

/// A named field of a record.
#[derive(Clone, Debug)]
pub struct RecordField {
    pub name: String,
    pub value: FieldValue,
}

/// One element of the input list.
#[derive(Clone, Debug)]
pub enum Element {
    Int(i64),
    /// A fractional number, given in millionths.
    Float(i64),
    Record(Vec<RecordField>),
    /// Any other kind of value.
    Other,
}

/// The whole input of a call.
#[derive(Clone, Debug)]
pub enum Input {
    List(Vec<Element>),
    /// Anything that is not a list.
    Other,
}

/// The two coordinates, which are also the two field names of a record.
#[derive(Clone, Copy, Debug, PartialEq, Eq, Structural)]
pub enum Axis {
    X,
    Y,
}

#[derive(Clone, Copy, Debug, PartialEq, Eq, Structural)]
pub enum InputError {
    /// The list holds both bare numbers and records.
    MixedInputShapes,
    /// The record at this index has no field for this axis.
    MissingField(Axis, usize),
    /// A value at this index is not a number.
    WrongType(usize),
    /// The element at this index is neither a number nor a record.
    UnsupportedElementType(usize),
    /// The input is not a list.
    UnsupportedTopLevelShape,
    /// The list is empty.
    EmptyInput,
}

/// What the elements seen so far have fixed the input to be.
#[derive(Clone, Copy, Debug, PartialEq, Eq, Structural)]
pub enum InputShape {
    Start,
    List,
    Table,
}

pub open spec fn axis_name(a: Axis) -> Seq<char> {
    match a {
        Axis::X => seq!['x'],
        Axis::Y => seq!['y'],
    }
}

/// A field value as a coordinate, or `None` if it is not a number.
pub open spec fn field_number(v: FieldValue) -> Option<int> {
    match v {
        FieldValue::Int(n) => Some(n * UNITS_PER_ONE),
        FieldValue::Float(m) => Some(m as int),
        FieldValue::Other => None,
    }
}

/// The value of the first field at or after `i` named `name`.
pub open spec fn lookup_from(fields: Seq<RecordField>, name: Seq<char>, i: int) -> Option<FieldValue>
    decreases fields.len() - i,
{
    if i < 0 || i >= fields.len() {
        None
    } else if fields[i].name@ == name {
        Some(fields[i].value)
    } else {
        lookup_from(fields, name, i + 1)
    }
}

/// The value of the first field named `name`.
pub open spec fn lookup(fields: Seq<RecordField>, name: Seq<char>) -> Option<FieldValue> {
    lookup_from(fields, name, 0)
}

/// The point that the record at index `i` gives.
pub open spec fn record_point(fields: Seq<RecordField>, i: int) -> Result<(int, int), InputError> {
    match lookup(fields, axis_name(Axis::X)) {
        None => Err(InputError::MissingField(Axis::X, i as usize)),
        Some(xv) => match field_number(xv) {
            None => Err(InputError::WrongType(i as usize)),
            Some(x) => match lookup(fields, axis_name(Axis::Y)) {
                None => Err(InputError::MissingField(Axis::Y, i as usize)),
                Some(yv) => match field_number(yv) {
                    None => Err(InputError::WrongType(i as usize)),
                    Some(y) => Ok((x, y)),
                },
            },
        },
    }
}

pub open spec fn is_number(e: Element) -> bool {
    e is Int || e is Float
}

/// The point that element `e` at index `i` gives, in state `shape`.
pub open spec fn element_point(e: Element, i: int, shape: InputShape) -> Result<(int, int), InputError> {
    match e {
        Element::Int(n) => if shape is Table {
            Err(InputError::MixedInputShapes)
        } else {
            Ok((i * UNITS_PER_ONE, n * UNITS_PER_ONE))
        },
        Element::Float(m) => if shape is Table {
            Err(InputError::MixedInputShapes)
        } else {
            Ok((i * UNITS_PER_ONE, m as int))
        },
        Element::Record(fields) => if shape is List {
            Err(InputError::MixedInputShapes)
        } else {
            record_point(fields@, i)
        },
        Element::Other => Err(InputError::UnsupportedElementType(i as usize)),
    }
}

/// The state after element `e`: the first classifiable element fixes it.
pub open spec fn shape_after(e: Element, shape: InputShape) -> InputShape {
    if shape is Start {
        match e {
            Element::Int(_) | Element::Float(_) => InputShape::List,
            Element::Record(_) => InputShape::Table,
            Element::Other => InputShape::Start,
        }
    } else {
        shape
    }
}

/// The state in which the element at index `i` is read.
pub open spec fn shape_before(elems: Seq<Element>, i: int) -> InputShape {
    if i <= 0 {
        InputShape::Start
    } else {
        shape_after(elems[0], InputShape::Start)
    }
}

/// The points of a list of elements, or the first failure met.
pub open spec fn normalized(elems: Seq<Element>) -> Result<Seq<(int, int)>, InputError>
    decreases elems.len(),
{
    if elems.len() == 0 {
        Ok(Seq::empty())
    } else {
        let i = elems.len() - 1;
        match normalized(elems.drop_last()) {
            Err(e) => Err(e),
            Ok(ps) => match element_point(elems[i], i, shape_before(elems, i)) {
                Err(e) => Err(e),
                Ok(p) => Ok(ps.push(p)),
            },
        }
    }
}

/// What normalizing a whole input gives.
pub open spec fn normalize_spec(input: Input) -> Result<Seq<(int, int)>, InputError> {
    match input {
        Input::Other => Err(InputError::UnsupportedTopLevelShape),
        Input::List(v) => if v@.len() == 0 {
            Err(InputError::EmptyInput)
        } else {
            normalized(v@)
        },
    }
}


/// The first field of `fields` named after `axis`.
fn find_field(fields: &Vec<RecordField>, axis: Axis) -> (r: Option<FieldValue>)
    ensures
        r == lookup(fields@, axis_name(axis)),
{
    let key = match axis {
        Axis::X => String::from_str("x"),
        Axis::Y => String::from_str("y"),
    };
    proof {
        reveal_strlit("x");
        reveal_strlit("y");
        assert(key@ =~= axis_name(axis));
    }
    let mut i: usize = 0;
    while i < fields.len()
        invariant
            0 <= i <= fields@.len(),
            key@ == axis_name(axis),
            lookup(fields@, axis_name(axis)) == lookup_from(fields@, axis_name(axis), i as int),
        decreases fields@.len() - i,
    {
        if fields[i].name == key {
            return Some(fields[i].value);
        }
        i += 1;
    }
    None
}

/// A field value as a coordinate in millionths.
fn number_of(v: FieldValue) -> (r: Option<i128>)
    ensures
        match r {
            Some(n) => field_number(v) == Some(n as int) && -COORD_LIMIT <= n <= COORD_LIMIT,
            None => field_number(v) is None,
        },
{
    match v {
        FieldValue::Int(n) => Some(n as i128 * UNITS_PER_ONE),
        FieldValue::Float(m) => Some(m as i128),
        FieldValue::Other => None,
    }
}

/// The sample that record `fields` at index `i` gives.
fn record_sample(fields: &Vec<RecordField>, i: usize) -> (r: Result<Sample, InputError>)
    ensures
        match r {
            Ok(p) => record_point(fields@, i as int) == Ok::<(int, int), InputError>(p.point())
                && p.in_range(),
            Err(e) => record_point(fields@, i as int) == Err::<(int, int), InputError>(e),
        },
{
    let x = match find_field(fields, Axis::X) {
        None => return Err(InputError::MissingField(Axis::X, i)),
        Some(v) => match number_of(v) {
            None => return Err(InputError::WrongType(i)),
            Some(x) => x,
        },
    };
    let y = match find_field(fields, Axis::Y) {
        None => return Err(InputError::MissingField(Axis::Y, i)),
        Some(v) => match number_of(v) {
            None => return Err(InputError::WrongType(i)),
            Some(y) => y,
        },
    };
    Ok(Sample { x, y })
}

/// The sample that element `e` at index `i` gives, in state `shape`.
fn element_sample(e: &Element, i: usize, shape: InputShape) -> (r: Result<Sample, InputError>)
    ensures
        match r {
            Ok(p) => element_point(*e, i as int, shape) == Ok::<(int, int), InputError>(p.point())
                && p.in_range(),
            Err(err) => element_point(*e, i as int, shape) == Err::<(int, int), InputError>(err),
        },
{
    match e {
        Element::Int(n) => {
            if shape == InputShape::Table {
                Err(InputError::MixedInputShapes)
            } else {
                Ok(Sample { x: i as i128 * UNITS_PER_ONE, y: *n as i128 * UNITS_PER_ONE })
            }
        },
        Element::Float(m) => {
            if shape == InputShape::Table {
                Err(InputError::MixedInputShapes)
            } else {
                Ok(Sample { x: i as i128 * UNITS_PER_ONE, y: *m as i128 })
            }
        },
        Element::Record(fields) => {
            if shape == InputShape::List {
                Err(InputError::MixedInputShapes)
            } else {
                record_sample(fields, i)
            }
        },
        Element::Other => Err(InputError::UnsupportedElementType(i)),
    }
}

/// The state after element `e` has been read in state `shape`.
pub fn next_shape(e: &Element, shape: InputShape) -> (r: InputShape)
    ensures
        r == shape_after(*e, shape),
{
    match shape {
        InputShape::Start => match e {
            Element::Int(_) | Element::Float(_) => InputShape::List,
            Element::Record(_) => InputShape::Table,
            Element::Other => InputShape::Start,
        },
        _ => shape,
    }
}

/// Once a prefix of the list fails, the whole list fails the same way.
proof fn lemma_failure_persists(elems: Seq<Element>, n: int, e: InputError)
    requires
        0 <= n <= elems.len(),
        normalized(elems.take(n)) == Err::<Seq<(int, int)>, InputError>(e),
    ensures
        normalized(elems) == Err::<Seq<(int, int)>, InputError>(e),
    decreases elems.len() - n,
{
    if n == elems.len() {
        assert(elems.take(n) =~= elems);
    } else {
        let t = elems.take(n + 1);
        assert(t.drop_last() =~= elems.take(n));
        lemma_failure_persists(elems, n + 1, e);
    }
}

/// Reads the input into samples, in input order. A list of bare numbers
/// gives each its position as `x`; a table gives the fields `x` and `y`.
pub fn normalize_input(input: &Input) -> (r: Result<Vec<Sample>, InputError>)
    ensures
        match r {
            Ok(v) => normalize_spec(*input) == Ok::<Seq<(int, int)>, InputError>(points(v@))
                && v@.len() > 0 && all_in_range(v@),
            Err(e) => normalize_spec(*input) == Err::<Seq<(int, int)>, InputError>(e),
        },
{
    let elems = match input {
        Input::Other => return Err(InputError::UnsupportedTopLevelShape),
        Input::List(elems) => elems,
    };
    if elems.len() == 0 {
        return Err(InputError::EmptyInput);
    }
    let mut out: Vec<Sample> = Vec::new();
    let mut shape = InputShape::Start;
    let mut i: usize = 0;
    proof {
        assert(elems@.take(0) =~= Seq::<Element>::empty());
        assert(points(out@) =~= Seq::<(int, int)>::empty());
    }
    while i < elems.len()
        invariant
            *input == Input::List(*elems),
            0 <= i <= elems@.len(),
            out@.len() == i,
            normalized(elems@.take(i as int)) == Ok::<Seq<(int, int)>, InputError>(points(out@)),
            shape == shape_before(elems@, i as int),
            i > 0 ==> !(elems@[0] is Other),
            all_in_range(out@),
        decreases elems@.len() - i,
    {
        let t = Ghost(elems@.take(i + 1));
        proof {
            assert(t@.drop_last() =~= elems@.take(i as int));
            assert(t@[i as int] == elems@[i as int]);
            assert(shape_before(t@, i as int) == shape_before(elems@, i as int));
        }
        match element_sample(&elems[i], i, shape) {
            Err(e) => {
                proof {
                    assert(normalized(t@) == Err::<Seq<(int, int)>, InputError>(e));
                    lemma_failure_persists(elems@, i + 1, e);
                }
                return Err(e);
            },
            Ok(p) => {
                proof {
                    assert(points(out@.push(p)) =~= points(out@).push(p.point()));
                }
                out.push(p);
                shape = next_shape(&elems[i], shape);
            },
        }
        i += 1;
    }
    proof {
        assert(elems@.take(i as int) =~= elems@);
    }
    Ok(out)
}


/// The coordinate that a bare number stands for.
pub open spec fn number_value(e: Element) -> int {
    match e {
        Element::Int(n) => n * UNITS_PER_ONE,
        Element::Float(m) => m as int,
        _ => 0,
    }
}

/// The point that a record gives, if both its fields are numbers.
pub open spec fn record_xy(e: Element) -> Option<(int, int)> {
    match e {
        Element::Record(f) => match (lookup(f@, axis_name(Axis::X)), lookup(f@, axis_name(Axis::Y))) {
            (Some(xv), Some(yv)) => match (field_number(xv), field_number(yv)) {
                (Some(x), Some(y)) => Some((x, y)),
                _ => None,
            },
            _ => None,
        },
        _ => None,
    }
}

/// An element that is a bare number or a record with numeric `x` and `y`.
pub open spec fn well_formed(e: Element) -> bool {
    is_number(e) || record_xy(e) is Some
}

/// The point that a well-formed element at index `i` stands for.
pub open spec fn expected_point(e: Element, i: int) -> (int, int) {
    if is_number(e) {
        (i * UNITS_PER_ONE, number_value(e))
    } else {
        record_xy(e)->Some_0
    }
}

proof fn lemma_uniform_prefix(elems: Seq<Element>, n: int)
    requires
        0 <= n <= elems.len(),
        forall|j: int| 0 <= j < n ==> well_formed(#[trigger] elems[j]),
        forall|j: int| 0 <= j < n ==> is_number(#[trigger] elems[j]) == is_number(elems[0]),
    ensures
        normalized(elems.take(n)) == Ok::<Seq<(int, int)>, InputError>(
            Seq::new(n as nat, |j: int| expected_point(elems[j], j)),
        ),
    decreases n,
{
    let t = elems.take(n);
    if n == 0 {
        assert(t =~= Seq::<Element>::empty());
        assert(Seq::new(0, |j: int| expected_point(elems[j], j)) =~= Seq::<(int, int)>::empty());
    } else {
        lemma_uniform_prefix(elems, n - 1);
        assert(t.drop_last() =~= elems.take(n - 1));
        assert(t[n - 1] == elems[n - 1]);
        assert(well_formed(elems[n - 1]));
        assert(well_formed(elems[0]));
        assert(is_number(elems[n - 1]) == is_number(elems[0]));
        assert(Seq::new(n as nat, |j: int| expected_point(elems[j], j)) =~= Seq::new(
            (n - 1) as nat,
            |j: int| expected_point(elems[j], j),
        ).push(expected_point(elems[n - 1], n - 1)));
    }
}

/// A non-empty list of bare numbers gives, in order, the points whose `x`
/// is the position and whose `y` is the number.
pub proof fn lemma_numbers_normalize(v: Vec<Element>)
    requires
        v@.len() > 0,
        forall|i: int| 0 <= i < v@.len() ==> is_number(#[trigger] v@[i]),
    ensures
        normalize_spec(Input::List(v)) == Ok::<Seq<(int, int)>, InputError>(
            Seq::new(v@.len(), |i: int| (i * UNITS_PER_ONE, number_value(v@[i]))),
        ),
{
    lemma_uniform_prefix(v@, v@.len() as int);
    assert(v@.take(v@.len() as int) =~= v@);
    assert(Seq::new(v@.len(), |i: int| expected_point(v@[i], i)) =~= Seq::new(
        v@.len(),
        |i: int| (i * UNITS_PER_ONE, number_value(v@[i])),
    ));
}

/// A non-empty table of records with numeric `x` and `y` gives exactly those
/// fields, in input order.
pub proof fn lemma_records_normalize(v: Vec<Element>)
    requires
        v@.len() > 0,
        forall|i: int| 0 <= i < v@.len() ==> (#[trigger] record_xy(v@[i])) is Some,
    ensures
        normalize_spec(Input::List(v)) == Ok::<Seq<(int, int)>, InputError>(
            Seq::new(v@.len(), |i: int| record_xy(v@[i])->Some_0),
        ),
{
    assert forall|j: int| 0 <= j < v@.len() implies well_formed(#[trigger] v@[j])
        && !is_number(v@[j]) by {
        assert(record_xy(v@[j]) is Some);
    }
    assert(record_xy(v@[0]) is Some);
    lemma_uniform_prefix(v@, v@.len() as int);
    assert(v@.take(v@.len() as int) =~= v@);
    assert(Seq::new(v@.len(), |i: int| expected_point(v@[i], i)) =~= Seq::new(
        v@.len(),
        |i: int| record_xy(v@[i])->Some_0,
    ));
}

proof fn lemma_mixed_prefix(elems: Seq<Element>, n: int)
    requires
        1 <= n <= elems.len(),
        forall|j: int| 0 <= j < elems.len() ==> well_formed(#[trigger] elems[j]),
    ensures
        normalized(elems.take(n)) == Err::<Seq<(int, int)>, InputError>(InputError::MixedInputShapes)
            || forall|j: int| 0 <= j < n ==> is_number(#[trigger] elems[j]) == is_number(elems[0]),
    decreases n,
{
    let t = elems.take(n);
    assert(t.drop_last() =~= elems.take(n - 1));
    assert(t[n - 1] == elems[n - 1]);
    assert(well_formed(elems[n - 1]));
    assert(well_formed(elems[0]));
    if n == 1 {
    } else {
        lemma_mixed_prefix(elems, n - 1);
        if forall|j: int| 0 <= j < n - 1 ==> is_number(#[trigger] elems[j]) == is_number(elems[0]) {
            lemma_uniform_prefix(elems, n - 1);
        }
    }
}

/// A list that holds both a bare number and a record fails with
/// `MixedInputShapes`, whichever comes first, unless some element is neither
/// a number nor a record with numeric `x` and `y`.
pub proof fn lemma_mixed_shapes_fail(v: Vec<Element>, i: int, j: int)
    requires
        0 <= i < v@.len(),
        0 <= j < v@.len(),
        is_number(v@[i]),
        v@[j] is Record,
        forall|k: int| 0 <= k < v@.len() ==> well_formed(#[trigger] v@[k]),
    ensures
        normalize_spec(Input::List(v)) == Err::<Seq<(int, int)>, InputError>(
            InputError::MixedInputShapes,
        ),
{
    lemma_mixed_prefix(v@, v@.len() as int);
    assert(v@.take(v@.len() as int) =~= v@);
    assert(is_number(v@[i]) != is_number(v@[j]));
}

/// A record without a field for axis `a` fails with `MissingField(a, i)`, at
/// its own index, when every record before it is complete (for `y`: and its
/// own `x` is a number).
pub proof fn lemma_missing_field_fails(v: Vec<Element>, i: int, a: Axis)
    requires
        0 <= i < v@.len(),
        forall|j: int| 0 <= j < i ==> (#[trigger] record_xy(v@[j])) is Some,
        v@[i] is Record,
        a is X ==> lookup(v@[i]->Record_0@, axis_name(Axis::X)) is None,
        a is Y ==> lookup(v@[i]->Record_0@, axis_name(Axis::Y)) is None && field_number(
            lookup(v@[i]->Record_0@, axis_name(Axis::X))->Some_0,
        ) is Some && lookup(v@[i]->Record_0@, axis_name(Axis::X)) is Some,
    ensures
        normalize_spec(Input::List(v)) == Err::<Seq<(int, int)>, InputError>(
            InputError::MissingField(a, i as usize),
        ),
{
    let elems = v@;
    if i > 0 {
        assert(record_xy(elems[0]) is Some);
    }
    assert forall|j: int| 0 <= j < i implies well_formed(#[trigger] elems[j]) && is_number(
        elems[j],
    ) == is_number(elems[0]) by {
        assert(record_xy(elems[j]) is Some);
    }
    lemma_uniform_prefix(elems, i);
    let t = elems.take(i + 1);
    assert(t.drop_last() =~= elems.take(i));
    assert(t[i] == elems[i]);
    lemma_failure_persists(elems, i + 1, InputError::MissingField(a, i as usize));
}

} // verus!
