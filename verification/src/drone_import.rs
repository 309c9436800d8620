//! Import of recorded flights from CSV: which rows, columns and gates are taken.

use crate::order::{Score, ONE_KEY};
use crate::paths::{join, joined, stored, stored_dir};
use crate::text::{decimal, ends_in, ends_with, format_decimal, same};
use csv::StringRecord;
use vstd::arithmetic::div_mod::lemma_fundamental_div_mod_converse;
use vstd::prelude::*;

verus! {

/// A row of a CSV file, `csv::StringRecord`. Nothing of its inside is known but what the items
/// below say.
#[verifier::external_type_specification]
#[verifier::external_body]
pub struct ExStringRecord(StringRecord);

/// The fields of a CSV row, in order.
pub uninterp spec fn fields(record: StringRecord) -> Seq<Seq<char>>;

/// Calls `csv::StringRecord::len`: the number of the row's fields.
#[verifier::external_body]
fn field_count(record: &StringRecord) -> (count: usize)
    ensures
        count == fields(*record).len(),
{
    record.len()
}

/// Calls `csv::StringRecord::get`: the text of the field at a place, or nothing where the row has
/// no such field.
#[verifier::external_body]
fn field_at(record: &StringRecord, place: usize) -> (field: Option<String>)
    ensures
        match field {
            Some(text) => place < fields(*record).len() && text@ == fields(*record)[place as int],
            None => place >= fields(*record).len(),
        },
{
    match record.get(place) {
        Some(text) => Some(text.to_string()),
        None => None,
    }
}

/// The places of the columns of a CSV file, by their names.
#[derive(Debug)]
pub struct HeaderIndex {
    names: Vec<String>,
}

/// The last place below `end` at which the name stands.
pub open spec fn last_place(names: Seq<Seq<char>>, name: Seq<char>, end: int) -> Option<int>
    decreases end,
{
    if end <= 0 {
        None
    } else if names[end - 1] == name {
        Some(end - 1)
    } else {
        last_place(names, name, end - 1)
    }
}

/// Why a field cannot be read; `column` is its place in the list of columns to read.
#[derive(Clone, Copy, PartialEq, Eq, Structural, Debug)]
pub enum FieldError {
    MissingColumn { column: usize },
    MissingValue { column: usize },
}

impl HeaderIndex {
    /// The names of the columns, in order.
    pub closed spec fn view(&self) -> Seq<Seq<char>> {
        crate::text::views(self.names@)
    }

    /// The place of a column: the last one of that name.
    pub open spec fn place(self, name: Seq<char>) -> Option<int> {
        last_place(self@, name, self@.len() as int)
    }

    /// Indexes the header row of a file.
    pub fn new(headers: &StringRecord) -> (index: Self)
        ensures
            index@ == fields(*headers),
    {
        let count: usize = field_count(headers);
        let mut names: Vec<String> = Vec::new();
        let mut next: usize = 0;
        while next < count
            invariant
                next <= count == fields(*headers).len(),
                crate::text::views(names@) == fields(*headers).take(next as int),
            decreases count - next,
        {
            let ghost before = crate::text::views(names@);
            match field_at(headers, next) {
                Some(name) => {
                    names.push(name);
                },
                None => {},
            }
            next = next + 1;
            assert(crate::text::views(names@) =~= before.push(fields(*headers)[next - 1]));
            assert(fields(*headers).take(next as int) =~= before.push(fields(*headers)[next - 1]));
        }
        assert(fields(*headers).take(next as int) =~= fields(*headers));
        HeaderIndex { names }
    }

    fn find(&self, name: &str) -> (place: Option<usize>)
        ensures
            match place {
                Some(found) => self.place(name@) == Some(found as int),
                None => self.place(name@) is None,
            },
    {
        let mut end: usize = self.names.len();
        while end > 0
            invariant
                end <= self.names@.len(),
                self@ == crate::text::views(self.names@),
                last_place(self@, name@, self@.len() as int) == last_place(
                    self@,
                    name@,
                    end as int,
                ),
            decreases end,
        {
            if same(self.names[end - 1].as_str(), name) {
                return Some(end - 1);
            }
            end = end - 1;
        }
        None
    }

    /// Whether the file has a column of that name.
    pub fn contains(&self, name: &str) -> (answer: bool)
        ensures
            answer == self.place(name@) is Some,
    {
        self.find(name).is_some()
    }

    /// The text of the field of a row in a column, or why there is none; `column` is the place of
    /// the column's name in the list of columns to read.
    pub open spec fn field_of(
        self,
        row: Seq<Seq<char>>,
        name: Seq<char>,
        column: usize,
    ) -> Result<Seq<char>, FieldError> {
        match self.place(name) {
            None => Err(FieldError::MissingColumn { column }),
            Some(place) => if place < row.len() {
                Ok(row[place])
            } else {
                Err(FieldError::MissingValue { column })
            },
        }
    }

    fn read_field(&self, row: &StringRecord, name: &str, column: usize) -> (result: Result<
        String,
        FieldError,
    >)
        ensures
            match result {
                Ok(text) => self.field_of(fields(*row), name@, column) == Ok::<
                    Seq<char>,
                    FieldError,
                >(text@),
                Err(error) => self.field_of(fields(*row), name@, column) == Err::<
                    Seq<char>,
                    FieldError,
                >(error),
            },
    {
        match self.find(name) {
            None => Err(FieldError::MissingColumn { column }),
            Some(place) => match field_at(row, place) {
                Some(text) => Ok(text),
                None => Err(FieldError::MissingValue { column }),
            },
        }
    }
}

/// A column of a file is found under its name, and the last of several columns of one name counts.
pub proof fn law_last_column_counts(names: Seq<Seq<char>>, place: int)
    requires
        0 <= place < names.len(),
        forall|later: int| place < later < names.len() ==> #[trigger] names[later] != names[place],
    ensures
        last_place(names, names[place], names.len() as int) == Some(place),
{
    lemma_last_place(names, place, names.len() as int);
}

proof fn lemma_place_found(names: Seq<Seq<char>>, name: Seq<char>, end: int)
    requires
        0 <= end <= names.len(),
    ensures
        match last_place(names, name, end) {
            Some(place) => {
                &&& 0 <= place < end
                &&& names[place] == name
                &&& forall|later: int| place < later < end ==> #[trigger] names[later] != name
            },
            None => forall|i: int| 0 <= i < end ==> #[trigger] names[i] != name,
        },
    decreases end,
{
    if end > 0 && names[end - 1] != name {
        lemma_place_found(names, name, end - 1);
    }
}

/// A field is read from the last column of its name. It is missing where no column has the name, and
/// its value is missing where the row ends before the column.
pub proof fn law_fields_are_read_by_name(
    index: HeaderIndex,
    row: Seq<Seq<char>>,
    name: Seq<char>,
    column: usize,
    place: int,
)
    ensures
        0 <= place < index@.len() && index@[place] == name && (forall|later: int|
            place < later < index@.len() ==> #[trigger] index@[later] != name) ==> {
            &&& place < row.len() ==> index.field_of(row, name, column) == Ok::<
                Seq<char>,
                FieldError,
            >(row[place])
            &&& place >= row.len() ==> index.field_of(row, name, column) == Err::<
                Seq<char>,
                FieldError,
            >(FieldError::MissingValue { column })
        },
        (forall|i: int| 0 <= i < index@.len() ==> #[trigger] index@[i] != name) <==> index.field_of(
            row,
            name,
            column,
        ) == Err::<Seq<char>, FieldError>(FieldError::MissingColumn { column }),
{
    lemma_place_found(index@, name, index@.len() as int);
    if 0 <= place < index@.len() && index@[place] == name && (forall|later: int|
        place < later < index@.len() ==> #[trigger] index@[later] != name) {
        law_last_column_counts(index@, place);
    }
}

proof fn lemma_last_place(names: Seq<Seq<char>>, place: int, end: int)
    requires
        0 <= place < end <= names.len(),
        forall|later: int| place < later < end ==> #[trigger] names[later] != names[place],
    ensures
        last_place(names, names[place], end) == Some(place),
    decreases end,
{
    if place < end - 1 {
        assert(names[end - 1] != names[place]);
        lemma_last_place(names, place, end - 1);
    }
}

/// The fields of a row in a list of columns: the texts up to the first one that cannot be read,
/// and why that one cannot.
#[derive(Debug)]
pub struct FieldReading {
    pub texts: Vec<String>,
    pub failure: Option<FieldError>,
}

/// The reading of a list of columns.
pub open spec fn reads(
    reading: FieldReading,
    index: HeaderIndex,
    row: Seq<Seq<char>>,
    columns: Seq<Seq<char>>,
) -> bool {
    let count = reading.texts@.len() as int;
    &&& count <= columns.len()
    &&& forall|i: int|
        0 <= i < count ==> index.field_of(row, columns[i], i as usize) == Ok::<
            Seq<char>,
            FieldError,
        >((#[trigger] reading.texts@[i])@)
    &&& match reading.failure {
        None => count == columns.len(),
        Some(error) => count < columns.len() && index.field_of(row, columns[count], count as usize)
            == Err::<Seq<char>, FieldError>(error),
    }
}

/// Reads the fields of a row in a list of columns, in order, up to the first that is missing.
pub fn read_fields(index: &HeaderIndex, row: &StringRecord, columns: &Vec<String>) -> (reading:
    FieldReading)
    ensures
        reads(reading, *index, fields(*row), crate::text::views(columns@)),
{
    let mut texts: Vec<String> = Vec::new();
    let ghost names = crate::text::views(columns@);
    let mut next: usize = 0;
    while next < columns.len()
        invariant
            next == texts@.len() <= columns@.len(),
            names == crate::text::views(columns@),
            forall|i: int|
                0 <= i < next ==> index.field_of(fields(*row), names[i], i as usize) == Ok::<
                    Seq<char>,
                    FieldError,
                >((#[trigger] texts@[i])@),
        decreases columns@.len() - next,
    {
        match index.read_field(row, columns[next].as_str(), next) {
            Ok(text) => {
                texts.push(text);
            },
            Err(error) => {
                return FieldReading { texts, failure: Some(error) };
            },
        }
        next = next + 1;
    }
    FieldReading { texts, failure: None }
}

/// The columns of a flight sample, in the order in which they are read.
pub open spec fn sample_column_names() -> Seq<Seq<char>> {
    seq![
        "elapsed_time"@,
        "drone_x"@,
        "drone_y"@,
        "drone_z"@,
        "drone_rot[0]"@,
        "drone_rot[1]"@,
        "drone_rot[2]"@,
        "drone_rot[3]"@,
        "drone_rot[4]"@,
        "drone_rot[5]"@,
        "drone_rot[6]"@,
        "drone_rot[7]"@,
        "drone_rot[8]"@,
        "drone_velocity_linear_x"@,
        "drone_velocity_linear_y"@,
        "drone_velocity_linear_z"@,
        "drone_velocity_angular_x"@,
        "drone_velocity_angular_y"@,
        "drone_velocity_angular_z"@,
        "channels_roll"@,
        "channels_pitch"@,
        "channels_thrust"@,
        "channels_yaw"@,
        "vbat"@,
        "accel_x"@,
        "accel_y"@,
        "accel_z"@,
        "gyro_x"@,
        "gyro_y"@,
        "gyro_z"@,
    ]
}

/// Lists the columns of a flight sample.
pub fn sample_columns() -> (columns: Vec<String>)
    ensures
        crate::text::views(columns@) == sample_column_names(),
{
    let mut columns: Vec<String> = Vec::new();
    columns.push("elapsed_time".to_owned());
    columns.push("drone_x".to_owned());
    columns.push("drone_y".to_owned());
    columns.push("drone_z".to_owned());
    columns.push("drone_rot[0]".to_owned());
    columns.push("drone_rot[1]".to_owned());
    columns.push("drone_rot[2]".to_owned());
    columns.push("drone_rot[3]".to_owned());
    columns.push("drone_rot[4]".to_owned());
    columns.push("drone_rot[5]".to_owned());
    columns.push("drone_rot[6]".to_owned());
    columns.push("drone_rot[7]".to_owned());
    columns.push("drone_rot[8]".to_owned());
    columns.push("drone_velocity_linear_x".to_owned());
    columns.push("drone_velocity_linear_y".to_owned());
    columns.push("drone_velocity_linear_z".to_owned());
    columns.push("drone_velocity_angular_x".to_owned());
    columns.push("drone_velocity_angular_y".to_owned());
    columns.push("drone_velocity_angular_z".to_owned());
    columns.push("channels_roll".to_owned());
    columns.push("channels_pitch".to_owned());
    columns.push("channels_thrust".to_owned());
    columns.push("channels_yaw".to_owned());
    columns.push("vbat".to_owned());
    columns.push("accel_x".to_owned());
    columns.push("accel_y".to_owned());
    columns.push("accel_z".to_owned());
    columns.push("gyro_x".to_owned());
    columns.push("gyro_y".to_owned());
    columns.push("gyro_z".to_owned());
    assert(crate::text::views(columns@) =~= sample_column_names());
    columns
}

/// One of the three coordinates of a marker.
#[derive(Clone, Copy, PartialEq, Eq, Structural, Debug)]
pub enum Axis {
    X,
    Y,
    Z,
}

/// The ending of a coordinate's column.
pub open spec fn axis_ending(axis: Axis) -> Seq<char> {
    match axis {
        Axis::X => "_x"@,
        Axis::Y => "_y"@,
        Axis::Z => "_z"@,
    }
}

/// The column of a coordinate of a gate's marker.
pub open spec fn marker_column(gate: nat, marker: nat, axis: Axis) -> Seq<char> {
    "gate"@ + decimal(gate) + "_marker"@ + decimal(marker) + axis_ending(axis)
}

fn marker_column_name(gate: u64, marker: u64, axis: Axis) -> (name: String)
    ensures
        name@ == marker_column(gate as nat, marker as nat, axis),
{
    let ending = match axis {
        Axis::X => "_x",
        Axis::Y => "_y",
        Axis::Z => "_z",
    };
    let gate_text = format_decimal(gate);
    let marker_text = format_decimal(marker);
    "gate".to_owned().concat(gate_text.as_str()).concat("_marker").concat(
        marker_text.as_str(),
    ).concat(ending)
}

/// Column `index` of a gate: the coordinates of its four markers, marker by marker.
pub open spec fn gate_column(gate: nat, index: int) -> Seq<char> {
    marker_column(
        gate,
        (index / 3 + 1) as nat,
        if index % 3 == 0 {
            Axis::X
        } else if index % 3 == 1 {
            Axis::Y
        } else {
            Axis::Z
        },
    )
}

/// The columns of a gate.
pub open spec fn gate_column_names(gate: nat) -> Seq<Seq<char>> {
    Seq::new(12, |i: int| gate_column(gate, i))
}

/// Lists the columns of a gate.
pub fn gate_columns(gate: u64) -> (columns: Vec<String>)
    ensures
        crate::text::views(columns@) == gate_column_names(gate as nat),
{
    let mut columns: Vec<String> = Vec::new();
    let mut index: u64 = 0;
    while index < 12
        invariant
            index <= 12,
            columns@.len() == index,
            forall|i: int|
                0 <= i < index ==> (#[trigger] columns@[i])@ == gate_column(gate as nat, i),
        decreases 12 - index,
    {
        let axis = if index % 3 == 0 {
            Axis::X
        } else if index % 3 == 1 {
            Axis::Y
        } else {
            Axis::Z
        };
        columns.push(marker_column_name(gate, index / 3 + 1, axis));
        index = index + 1;
    }
    assert(crate::text::views(columns@) =~= gate_column_names(gate as nat));
    columns
}

/// The file has all columns of the list.
pub open spec fn has_all(index: HeaderIndex, columns: Seq<Seq<char>>) -> bool {
    forall|i: int| 0 <= i < columns.len() ==> index.place(#[trigger] columns[i]) is Some
}

/// A sample is made of the time, the position, the rotation row by row, the two velocities, the
/// channels, the battery and the two inertial measurements, each axis by axis.
#[verifier::spinoff_prover]
pub proof fn law_samples_are_read_axis_by_axis(axis: int, entry: nat)
    requires
        0 <= axis < 3,
        entry < 9,
    ensures
        ({
            let names = sample_column_names();
            let ending = if axis == 0 {
                "_x"@
            } else if axis == 1 {
                "_y"@
            } else {
                "_z"@
            };
            &&& names.len() == 30
            &&& names[0] == "elapsed_time"@
            &&& names[1 + axis] == "drone"@ + ending
            &&& names[4 + entry as int] == "drone_rot["@ + decimal(entry) + "]"@
            &&& names[13 + axis] == "drone_velocity_linear"@ + ending
            &&& names[16 + axis] == "drone_velocity_angular"@ + ending
            &&& names[19] == "channels_roll"@
            &&& names[20] == "channels_pitch"@
            &&& names[21] == "channels_thrust"@
            &&& names[22] == "channels_yaw"@
            &&& names[23] == "vbat"@
            &&& names[24 + axis] == "accel"@ + ending
            &&& names[27 + axis] == "gyro"@ + ending
        }),
{
    reveal_strlit("_x");
    reveal_strlit("_y");
    reveal_strlit("_z");
    reveal_strlit("drone");
    reveal_strlit("drone_x");
    reveal_strlit("drone_y");
    reveal_strlit("drone_z");
    assert("drone_x"@ =~= "drone"@ + "_x"@);
    assert("drone_y"@ =~= "drone"@ + "_y"@);
    assert("drone_z"@ =~= "drone"@ + "_z"@);
    reveal_strlit("drone_velocity_linear");
    reveal_strlit("drone_velocity_linear_x");
    reveal_strlit("drone_velocity_linear_y");
    reveal_strlit("drone_velocity_linear_z");
    assert("drone_velocity_linear_x"@ =~= "drone_velocity_linear"@ + "_x"@);
    assert("drone_velocity_linear_y"@ =~= "drone_velocity_linear"@ + "_y"@);
    assert("drone_velocity_linear_z"@ =~= "drone_velocity_linear"@ + "_z"@);
    reveal_strlit("drone_velocity_angular");
    reveal_strlit("drone_velocity_angular_x");
    reveal_strlit("drone_velocity_angular_y");
    reveal_strlit("drone_velocity_angular_z");
    assert("drone_velocity_angular_x"@ =~= "drone_velocity_angular"@ + "_x"@);
    assert("drone_velocity_angular_y"@ =~= "drone_velocity_angular"@ + "_y"@);
    assert("drone_velocity_angular_z"@ =~= "drone_velocity_angular"@ + "_z"@);
    reveal_strlit("accel");
    reveal_strlit("accel_x");
    reveal_strlit("accel_y");
    reveal_strlit("accel_z");
    assert("accel_x"@ =~= "accel"@ + "_x"@);
    assert("accel_y"@ =~= "accel"@ + "_y"@);
    assert("accel_z"@ =~= "accel"@ + "_z"@);
    reveal_strlit("gyro");
    reveal_strlit("gyro_x");
    reveal_strlit("gyro_y");
    reveal_strlit("gyro_z");
    assert("gyro_x"@ =~= "gyro"@ + "_x"@);
    assert("gyro_y"@ =~= "gyro"@ + "_y"@);
    assert("gyro_z"@ =~= "gyro"@ + "_z"@);
    reveal_strlit("drone_rot[");
    reveal_strlit("]");
    reveal_strlit("drone_rot[0]");
    reveal_strlit("drone_rot[1]");
    reveal_strlit("drone_rot[2]");
    reveal_strlit("drone_rot[3]");
    reveal_strlit("drone_rot[4]");
    reveal_strlit("drone_rot[5]");
    reveal_strlit("drone_rot[6]");
    reveal_strlit("drone_rot[7]");
    reveal_strlit("drone_rot[8]");
    assert("drone_rot[0]"@ =~= "drone_rot["@ + decimal(0) + "]"@);
    assert("drone_rot[1]"@ =~= "drone_rot["@ + decimal(1) + "]"@);
    assert("drone_rot[2]"@ =~= "drone_rot["@ + decimal(2) + "]"@);
    assert("drone_rot[3]"@ =~= "drone_rot["@ + decimal(3) + "]"@);
    assert("drone_rot[4]"@ =~= "drone_rot["@ + decimal(4) + "]"@);
    assert("drone_rot[5]"@ =~= "drone_rot["@ + decimal(5) + "]"@);
    assert("drone_rot[6]"@ =~= "drone_rot["@ + decimal(6) + "]"@);
    assert("drone_rot[7]"@ =~= "drone_rot["@ + decimal(7) + "]"@);
    assert("drone_rot[8]"@ =~= "drone_rot["@ + decimal(8) + "]"@);
}

/// A gate has four markers, counted from one, with three coordinates each, one marker behind the
/// other.
pub proof fn law_gates_have_four_markers(gate: nat, marker: nat, axis: int)
    requires
        1 <= marker <= 4,
        0 <= axis < 3,
    ensures
        gate_column_names(gate).len() == 12,
        gate_column_names(gate)[3 * (marker - 1) + axis] == "gate"@ + decimal(gate) + "_marker"@
            + decimal(marker) + (if axis == 0 {
            "_x"@
        } else if axis == 1 {
            "_y"@
        } else {
            "_z"@
        }),
{
}

/// All columns are there exactly where each of their names is among the header's.
pub proof fn law_all_columns_are_found(index: HeaderIndex, columns: Seq<Seq<char>>)
    ensures
        has_all(index, columns) <==> forall|i: int|
            0 <= i < columns.len() ==> index@.contains(#[trigger] columns[i]),
{
    assert forall|i: int| 0 <= i < columns.len() implies (index.place(columns[i]) is Some
        <==> index@.contains(#[trigger] columns[i])) by {
        lemma_place_found(index@, columns[i], index@.len() as int);
    }
    if !has_all(index, columns) {
        let i = choose|i: int|
            0 <= i < columns.len() && index.place(#[trigger] columns[i]) is None;
        assert(!index@.contains(columns[i]));
    }
}

fn contains_all(index: &HeaderIndex, columns: &Vec<String>) -> (answer: bool)
    ensures
        answer == has_all(*index, crate::text::views(columns@)),
{
    let ghost names = crate::text::views(columns@);
    let mut next: usize = 0;
    while next < columns.len()
        invariant
            next <= columns@.len(),
            names == crate::text::views(columns@),
            forall|i: int| 0 <= i < next ==> index.place(#[trigger] names[i]) is Some,
        decreases columns@.len() - next,
    {
        if !index.contains(columns[next].as_str()) {
            assert(index.place(names[next as int]) is None);
            return false;
        }
        next = next + 1;
    }
    true
}

/// What a row holds of a gate.
#[derive(Debug)]
pub struct GateReading {
    pub gate: u64,
    pub reading: FieldReading,
}

/// The gates below `end` whose columns the file has, counted from one.
pub open spec fn gates_present(index: HeaderIndex, end: nat) -> Seq<u64>
    decreases end,
{
    if end <= 1 {
        Seq::empty()
    } else {
        let gate = (end - 1) as nat;
        let before = gates_present(index, gate);
        if has_all(index, gate_column_names(gate)) {
            before.push(gate as u64)
        } else {
            before
        }
    }
}

/// The gates of a file: those of the gates one to eight whose columns it has.
pub open spec fn all_gates(index: HeaderIndex) -> Seq<u64> {
    gates_present(index, 9)
}

/// Reads the gates of a flight from its first row: those of the gates one to eight whose columns
/// the file has, in order.
pub fn read_gates(index: &HeaderIndex, row: &StringRecord) -> (gates: Vec<GateReading>)
    ensures
        gates@.len() == all_gates(*index).len(),
        forall|i: int| 0 <= i < gates@.len() ==> (#[trigger] gates@[i]).gate == all_gates(*index)[i],
        gates@.len() == gates_present(*index, 9).len(),
        forall|i: int|
            0 <= i < gates@.len() ==> (#[trigger] gates@[i]).gate == gates_present(*index, 9)[i]
                && reads(
                gates@[i].reading,
                *index,
                fields(*row),
                gate_column_names(gates@[i].gate as nat),
            ),
{
    let mut gates: Vec<GateReading> = Vec::new();
    let mut gate: u64 = 1;
    while gate <= 8
        invariant
            1 <= gate <= 9,
            gates@.len() == gates_present(*index, gate as nat).len(),
            forall|i: int|
                0 <= i < gates@.len() ==> (#[trigger] gates@[i]).gate == gates_present(
                    *index,
                    gate as nat,
                )[i] && reads(
                    gates@[i].reading,
                    *index,
                    fields(*row),
                    gate_column_names(gates@[i].gate as nat),
                ),
        decreases 9 - gate,
    {
        let columns = gate_columns(gate);
        if contains_all(index, &columns) {
            let reading = read_fields(index, row, &columns);
            gates.push(GateReading { gate, reading });
        }
        gate = gate + 1;
    }
    gates
}

/// The name of a gate.
pub fn gate_name(gate: u64) -> (name: String)
    ensures
        name@ == "gate"@ + decimal(gate as nat),
{
    "gate".to_owned().concat(format_decimal(gate).as_str())
}

/// A gate that is read is one of the eight, and all of its columns are in the file; so only the
/// row itself can lack a value.
pub proof fn law_gates_read_have_their_columns(index: HeaderIndex, end: nat, place: int)
    requires
        1 <= end <= 9,
        0 <= place < gates_present(index, end).len(),
    ensures
        1 <= gates_present(index, end)[place] < end,
        has_all(index, gate_column_names(gates_present(index, end)[place] as nat)),
    decreases end,
{
    if end > 1 {
        let before = gates_present(index, (end - 1) as nat);
        if place < before.len() {
            law_gates_read_have_their_columns(index, (end - 1) as nat, place);
        }
    }
}

/// How a flight's rows are taken over: every `stride`-th row is read, and the samples that are kept
/// get consecutive steps.
#[derive(Clone, Copy, PartialEq, Eq, Structural, Debug)]
pub struct FlightImport {
    pub stride: usize,
    pub rows_read: usize,
    pub kept_step: i64,
}

/// What is done with a row of a file.
#[derive(Clone, Copy, PartialEq, Eq, Structural, Debug)]
pub enum RowUse {
    Skip,
    /// The row is sampled; the first one of the flight also gives the gates.
    Sample { first: bool },
}

/// What becomes of row `row` of a file of which every `stride`-th row is sampled.
pub open spec fn row_use_of(row: int, stride: int) -> RowUse {
    if row % stride == 0 {
        RowUse::Sample { first: row == 0 }
    } else {
        RowUse::Skip
    }
}

impl FlightImport {
    /// What holds between two rows.
    pub open spec fn well_formed(self) -> bool {
        &&& self.stride > 0
        &&& 0 <= self.kept_step <= self.rows_read
    }

    /// Begins a flight.
    pub fn new(stride: usize) -> (import: Self)
        requires
            stride > 0,
        ensures
            import == (FlightImport { stride, rows_read: 0, kept_step: 0 }),
            import.well_formed(),
    {
        FlightImport { stride, rows_read: 0, kept_step: 0 }
    }

    /// Decides on the next row of the file.
    pub fn next_row(&mut self) -> (row_use: RowUse)
        requires
            old(self).well_formed(),
            old(self).rows_read < usize::MAX,
        ensures
            final(self).well_formed(),
            *final(self) == (FlightImport {
                rows_read: (old(self).rows_read + 1) as usize,
                ..*old(self)
            }),
            row_use == row_use_of(old(self).rows_read as int, old(self).stride as int),
            row_use == if old(self).rows_read as int % (old(self).stride as int) == 0 {
                RowUse::Sample { first: old(self).rows_read == 0 }
            } else {
                RowUse::Skip
            },
    {
        let row: usize = self.rows_read;
        self.rows_read = row + 1;
        proof {
            if row == 0 {
                vstd::arithmetic::div_mod::lemma_small_mod(0, self.stride as nat);
            }
        }
        if row % self.stride == 0 {
            RowUse::Sample { first: row == 0 }
        } else {
            RowUse::Skip
        }
    }

    /// Keeps the sample of the row that was decided on last, and gives it its step.
    pub fn keep(&mut self) -> (step: i64)
        requires
            old(self).well_formed(),
            old(self).kept_step < old(self).rows_read,
            old(self).kept_step < i64::MAX,
        ensures
            final(self).well_formed(),
            step == old(self).kept_step,
            *final(self) == (FlightImport {
                kept_step: (old(self).kept_step + 1) as i64,
                ..*old(self)
            }),
    {
        let step: i64 = self.kept_step;
        self.kept_step = step + 1;
        step
    }

    /// Whether the flight gave enough samples: at least two.
    pub fn is_usable(&self) -> (answer: bool)
        ensures
            answer == (self.kept_step > 1),
    {
        self.kept_step > 1
    }
}

/// The name is that of a synchronized recording.
pub open spec fn sync_csv(name: Seq<char>) -> bool {
    ends_in(name, "_500hz_freq_sync.csv"@)
}

/// Whether a file of that name is imported.
pub fn is_sync_csv(name: &str) -> (answer: bool)
    ensures
        answer == sync_csv(name@),
{
    ends_with(name, "_500hz_freq_sync.csv")
}

/// The settings of the command line.
#[derive(Clone, Copy, Debug)]
pub struct CheckedArgs {
    pub source_rate: usize,
    pub sample_rate: usize,
    pub eval_fraction: Score,
}

impl CheckedArgs {
    /// The message of the first check that fails.
    pub open spec fn refusal(self) -> Option<Seq<char>> {
        if self.source_rate == 0 {
            Some("--source-rate must be greater than zero"@)
        } else if self.sample_rate == 0 {
            Some("--sample-rate must be greater than zero"@)
        } else if self.source_rate < self.sample_rate {
            Some("--source-rate must be >= --sample-rate"@)
        } else if self.source_rate as int % (self.sample_rate as int) != 0 {
            Some("--source-rate must be divisible by --sample-rate"@)
        } else if !(self.eval_fraction.positive() && self.eval_fraction.below(
            Score::Key(ONE_KEY),
        )) {
            Some("--eval-fraction must be finite and in (0, 1)"@)
        } else {
            None
        }
    }
}

/// Checks the settings of the command line, in order.
pub fn validate_args(args: &CheckedArgs) -> (result: Result<(), &'static str>)
    ensures
        match result {
            Ok(()) => args.refusal() is None,
            Err(message) => args.refusal() == Some(message@),
        },
{
    if args.source_rate == 0 {
        return Err("--source-rate must be greater than zero");
    }
    if args.sample_rate == 0 {
        return Err("--sample-rate must be greater than zero");
    }
    if args.source_rate < args.sample_rate {
        return Err("--source-rate must be >= --sample-rate");
    }
    if args.source_rate % args.sample_rate != 0 {
        return Err("--source-rate must be divisible by --sample-rate");
    }
    if !(args.eval_fraction.is_positive() && args.eval_fraction.is_below(Score::Key(ONE_KEY))) {
        return Err("--eval-fraction must be finite and in (0, 1)");
    }
    Ok(())
}

/// By how many rows of the source two samples are apart.
pub fn import_stride(source_rate: usize, sample_rate: usize) -> (stride: usize)
    requires
        0 < sample_rate <= source_rate,
    ensures
        stride == source_rate as int / (sample_rate as int),
        stride > 0,
        stride * sample_rate <= source_rate < (stride + 1) * sample_rate,
{
    let stride: usize = source_rate / sample_rate;
    proof {
        let rate = sample_rate as int;
        vstd::arithmetic::div_mod::lemma_div_non_zero(source_rate as int, rate);
        vstd::arithmetic::div_mod::lemma_fundamental_div_mod(source_rate as int, rate);
        vstd::arithmetic::div_mod::lemma_mod_bound(source_rate as int, rate);
        assert(rate * stride == stride * rate) by (nonlinear_arith);
        assert((stride + 1) * rate == stride * rate + rate) by (nonlinear_arith);
    }
    stride
}

/// The recordings that are imported by default.
pub fn default_input_dir(home: Option<&str>) -> (path: String)
    ensures
        path@ == joined(stored(home, "drone-racing-dataset"@, "data"@), "autonomous"@),
{
    join(stored_dir(home, "drone-racing-dataset", "data").as_str(), "autonomous")
}

/// The data set that is written by default.
pub fn default_output_dir(home: Option<&str>) -> (path: String)
    ensures
        path@ == stored(home, "le-wm-nv-data"@, "drone-racing-autonomous-100hz-pose16"@),
{
    stored_dir(home, "le-wm-nv-data", "drone-racing-autonomous-100hz-pose16")
}

/// The gates that are read are exactly those below `end` whose columns are all there, in ascending
/// order and counted from one.
#[verifier::spinoff_prover]
pub proof fn law_gates_with_their_columns_are_read(index: HeaderIndex, end: nat)
    requires
        1 <= end <= 9,
    ensures
        forall|gate: u64| #[trigger]
            gates_present(index, end).contains(gate) <==> 1 <= gate < end && has_all(
                index,
                gate_column_names(gate as nat),
            ),
        forall|i: int, j: int|
            0 <= i < j < gates_present(index, end).len() ==> #[trigger] gates_present(index, end)[i]
                < #[trigger] gates_present(index, end)[j],
    decreases end,
{
    if end > 1 {
        let last = (end - 1) as nat;
        law_gates_with_their_columns_are_read(index, last);
        let before = gates_present(index, last);
        let all = gates_present(index, end);
        assert forall|gate: u64| #[trigger] all.contains(gate) <==> 1 <= gate < end && has_all(
            index,
            gate_column_names(gate as nat),
        ) by {
            assert(before.contains(gate) <==> 1 <= gate < last && has_all(
                index,
                gate_column_names(gate as nat),
            ));
            if before.contains(gate) {
                let place = choose|i: int| 0 <= i < before.len() && before[i] == gate;
                assert(all[place] == gate);
            }
            if all.contains(gate) && !before.contains(gate) {
                let place = choose|i: int| 0 <= i < all.len() && all[i] == gate;
                assert(place < before.len() ==> before[place] == gate);
            }
            if gate == last && has_all(index, gate_column_names(last)) {
                assert(all[all.len() - 1] == gate);
            }
        }
        assert forall|i: int, j: int| 0 <= i < j < all.len() implies #[trigger] all[i]
            < #[trigger] all[j] by {
            if j == before.len() {
                assert(before.contains(before[i]));
            }
        }
    }
}

/// Of the rows of a file the first is sampled, and besides it every `stride`-th and no other.
pub proof fn law_rows_are_sampled_at_intervals(stride: int, count: int, row: int)
    requires
        stride > 0,
        count >= 0,
        row >= 0,
    ensures
        row_use_of(0, stride) == (RowUse::Sample { first: true }),
        count > 0 ==> row_use_of(count * stride, stride) == (RowUse::Sample { first: false }),
        count * stride < row < (count + 1) * stride ==> row_use_of(row, stride) == RowUse::Skip,
{
    lemma_fundamental_div_mod_converse(0, stride, 0, 0);
    lemma_fundamental_div_mod_converse(count * stride, stride, count, 0);
    assert((count + 1) * stride == count * stride + stride) by (nonlinear_arith);
    assert(count > 0 ==> count * stride > 0) by (nonlinear_arith)
        requires
            stride > 0,
    ;
    if count * stride < row < (count + 1) * stride {
        lemma_fundamental_div_mod_converse(row, stride, count, row - count * stride);
    }
}

/// A file of a flight is known by the end of its name.
pub proof fn law_flights_are_known_by_their_ending(name: Seq<char>)
    ensures
        sync_csv(name + "_500hz_freq_sync.csv"@),
        sync_csv(name) ==> exists|head: Seq<char>| name == #[trigger] (head
            + "_500hz_freq_sync.csv"@),
{
    let tail = "_500hz_freq_sync.csv"@;
    crate::text::law_texts_begin_and_end(name, tail, name);
    if sync_csv(name) {
        assert(name == name.take(name.len() - tail.len()) + tail);
    }
}

/// Settings are accepted exactly where the samples lie a whole number of source rows apart and the
/// fraction that is held out lies between zero and one.
#[verifier::spinoff_prover]
pub proof fn law_accepted_settings_are_in_range(args: CheckedArgs)
    ensures
        args.refusal() is None <==> {
            &&& 0 < args.sample_rate <= args.source_rate
            &&& exists|stride: int| #[trigger] (stride * args.sample_rate) == args.source_rate
            &&& Score::Key(0).below(args.eval_fraction)
            &&& args.eval_fraction.below(Score::Key(0x3ff0_0000_0000_0000))
        },
{
    let rate = args.sample_rate as int;
    let source = args.source_rate as int;
    if rate > 0 {
        vstd::arithmetic::div_mod::lemma_fundamental_div_mod(source, rate);
        assert(rate * (source / rate) == (source / rate) * rate) by (nonlinear_arith);
        if source % rate == 0 {
            assert((source / rate) * args.sample_rate == args.source_rate);
        }
        assert forall|stride: int| #[trigger]
            (stride * args.sample_rate) == args.source_rate implies source % rate == 0 by {
            lemma_fundamental_div_mod_converse(source, rate, stride, 0);
        }
    }
}

/// A file has up to eight gates, counted from one, and each one whose columns are all there is among
/// them.
pub proof fn law_eight_gates_are_looked_for(index: HeaderIndex, gate: u64)
    ensures
        all_gates(index).contains(gate) <==> 1 <= gate <= 8 && has_all(
            index,
            gate_column_names(gate as nat),
        ),
{
    law_gates_with_their_columns_are_read(index, 9);
}

/// A reading without a failure has the text of every column, and one with a failure has those of the
/// columns before the first that cannot be read.
pub proof fn law_readings_stop_at_the_first_failure(
    reading: FieldReading,
    index: HeaderIndex,
    row: Seq<Seq<char>>,
    columns: Seq<Seq<char>>,
    place: int,
)
    requires
        reads(reading, index, row, columns),
    ensures
        reading.failure is None <==> reading.texts@.len() == columns.len(),
        0 <= place < reading.texts@.len() ==> index.field_of(row, columns[place], place as usize)
            == Ok::<Seq<char>, FieldError>(reading.texts@[place]@),
        reading.failure matches Some(error) ==> reading.texts@.len() < columns.len()
            && index.field_of(
            row,
            columns[reading.texts@.len() as int],
            reading.texts@.len() as usize,
        ) == Err::<Seq<char>, FieldError>(error),
{
}

} // verus!
