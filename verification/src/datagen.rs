//! Setting up a reader of generated rows: which split it works on, where in
//! the split it starts, and how the value of each column is to be made.
use crate::decimal::{parse_decimal_u64, parse_u64};
use vstd::prelude::*;
use vstd::string::StringExecFns;

verus! {

/// The type of a column.
#[derive(Clone, Copy, Debug, PartialEq, Eq)]
pub enum DataType {
    Boolean,
    Int16,
    Int32,
    Int64,
    Float32,
    Float64,
    Decimal,
    Date,
    Varchar,
    Time,
    Timestamp,
    Timestampz,
    Interval,
}

/// A column of the rows to generate.
#[derive(Clone, Debug, PartialEq, Eq)]
pub struct Column {
    pub name: String,
    pub data_type: DataType,
}

/// One of the `split_num` parts into which the rows are divided.
#[derive(Clone, Copy, Debug, PartialEq, Eq)]
pub struct DatagenSplit {
    pub split_index: i32,
    pub split_num: i32,
    /// The index of the last row that was generated, if any was.
    pub start_offset: Option<u64>,
}

impl Default for DatagenSplit {
    fn default() -> (split: Self)
        ensures
            split == DatagenSplit::unassigned(),
    {
        DatagenSplit { split_index: 0, split_num: 0, start_offset: None }
    }
}

/// A split of some source, known by its id.
#[derive(Clone, Debug, PartialEq, Eq)]
pub enum SplitImpl {
    /// A split of generated rows.
    Datagen { id: String, split: DatagenSplit },
    /// A split of another kind of source.
    Other { id: String },
}

/// What a reader is configured with. Of two entries of `fields` with one
/// key, the later one counts.
#[derive(Clone, Debug, PartialEq, Eq)]
pub struct DatagenProperties {
    pub split_num: Option<String>,
    pub rows_per_second: String,
    pub fields: Vec<(String, String)>,
}

/// How the values of one column are made. The bounds are kept as they were
/// written in the configuration.
#[derive(Clone, Debug, PartialEq, Eq)]
pub enum FieldGeneratorImpl {
    /// Values drawn at random, from `seed`.
    Random {
        data_type: DataType,
        min: Option<String>,
        max: Option<String>,
        max_past: Option<String>,
        length: Option<String>,
        seed: u64,
    },
    /// Consecutive values, dealt out over the `split_num` splits.
    Sequence {
        data_type: DataType,
        start: Option<String>,
        end: Option<String>,
        split_index: u64,
        split_num: u64,
    },
}

/// A [`FieldGeneratorImpl`] with its texts as sequences of characters.
pub enum FieldGeneratorView {
    Random {
        data_type: DataType,
        min: Option<Seq<char>>,
        max: Option<Seq<char>>,
        max_past: Option<Seq<char>>,
        length: Option<Seq<char>>,
        seed: u64,
    },
    Sequence {
        data_type: DataType,
        start: Option<Seq<char>>,
        end: Option<Seq<char>>,
        split_index: u64,
        split_num: u64,
    },
}

/// The characters of `text`, if there is a text.
pub open spec fn text_view(text: Option<String>) -> Option<Seq<char>> {
    match text {
        Some(text) => Some(text@),
        None => None,
    }
}

impl View for FieldGeneratorImpl {
    type V = FieldGeneratorView;

    open spec fn view(&self) -> FieldGeneratorView {
        match *self {
            FieldGeneratorImpl::Random { data_type, min, max, max_past, length, seed } => {
                FieldGeneratorView::Random {
                    data_type,
                    min: text_view(min),
                    max: text_view(max),
                    max_past: text_view(max_past),
                    length: text_view(length),
                    seed,
                }
            },
            FieldGeneratorImpl::Sequence { data_type, start, end, split_index, split_num } => {
                FieldGeneratorView::Sequence {
                    data_type,
                    start: text_view(start),
                    end: text_view(end),
                    split_index,
                    split_num,
                }
            },
        }
    }
}

/// Everything that the generation of rows starts from.
#[derive(Clone, Debug, PartialEq, Eq)]
pub struct DatagenEventGenerator {
    /// One entry for each column but the first, in the order of the columns.
    /// Of two entries with one name, the later one counts.
    pub fields: Vec<(String, FieldGeneratorImpl)>,
    pub rows_per_second: u64,
    /// How many rows of the split were generated before.
    pub events_so_far: u64,
    pub split_id: String,
    pub split_num: u64,
    pub split_index: u64,
}

/// Why no reader could be made.
#[derive(Clone, Copy, Debug, PartialEq, Eq)]
pub enum DatagenError {
    /// `rows_per_second` is not an unsigned decimal number of 64 bits.
    InvalidRowsPerSecond,
}

/// A reader of generated rows.
#[derive(Clone, Debug, PartialEq, Eq)]
pub struct DatagenSplitReader {
    pub generator: DatagenEventGenerator,
    pub assigned_split: DatagenSplit,
}

/// The value that `options` gives to `key`, if it gives one: that of the last
/// entry with that key.
pub open spec fn option_value(options: Seq<(String, String)>, key: Seq<char>) -> Option<Seq<char>>
    decreases options.len(),
{
    if options.len() == 0 {
        None
    } else if options.last().0@ == key {
        Some(options.last().1@)
    } else {
        option_value(options.drop_last(), key)
    }
}

/// The key under which the setting `setting` of the column `name` is looked up.
pub open spec fn field_key(name: Seq<char>, setting: Seq<char>) -> Seq<char> {
    "fields."@ + name + "."@ + setting
}

/// The setting `setting` of the column `name` in `options`.
pub open spec fn field_option(
    options: Seq<(String, String)>,
    name: Seq<char>,
    setting: Seq<char>,
) -> Option<Seq<char>> {
    option_value(options, field_key(name, setting))
}

/// The seed of the random values of the column `name`: the configured seed
/// combined with the index of the split, so that no two splits draw the same
/// values; the index of the split alone where no seed, or none that is a
/// number, is configured.
pub open spec fn random_seed(options: Seq<(String, String)>, name: Seq<char>, split_index: u64) -> u64 {
    match field_option(options, name, "seed"@) {
        Some(text) => match parse_u64(text) {
            Some(seed) => seed ^ split_index,
            None => split_index,
        },
        None => split_index,
    }
}

/// How the values of the column `name` of type `data_type` are made.
///
/// A timestamp is drawn at random from the time `max_past` back from now, a
/// text at random with `length` characters. A column of another type counts
/// from `start` to `end` if its `kind` is `sequence`, and is else drawn at
/// random between `min` and `max`.
pub open spec fn field_plan(
    options: Seq<(String, String)>,
    name: Seq<char>,
    data_type: DataType,
    split_index: u64,
    split_num: u64,
) -> FieldGeneratorView {
    let seed = random_seed(options, name, split_index);
    match data_type {
        DataType::Timestamp => FieldGeneratorView::Random {
            data_type,
            min: None,
            max: None,
            max_past: field_option(options, name, "max_past"@),
            length: None,
            seed,
        },
        DataType::Varchar => FieldGeneratorView::Random {
            data_type,
            min: None,
            max: None,
            max_past: None,
            length: field_option(options, name, "length"@),
            seed,
        },
        _ => if field_option(options, name, "kind"@) == Some("sequence"@) {
            FieldGeneratorView::Sequence {
                data_type,
                start: field_option(options, name, "start"@),
                end: field_option(options, name, "end"@),
                split_index,
                split_num,
            }
        } else {
            FieldGeneratorView::Random {
                data_type,
                min: field_option(options, name, "min"@),
                max: field_option(options, name, "max"@),
                max_past: None,
                length: None,
                seed,
            }
        },
    }
}

/// Whether `fields` plans the columns of `columns` but the first, in their order.
pub open spec fn plans_columns(
    fields: Seq<(String, FieldGeneratorImpl)>,
    columns: Seq<Column>,
    options: Seq<(String, String)>,
    split_index: u64,
    split_num: u64,
) -> bool {
    &&& fields.len() + 1 == columns.len()
    &&& forall|i: int|
        #![trigger fields[i]]
        0 <= i < fields.len() ==> {
            &&& fields[i].0@ == columns[i + 1].name@
            &&& fields[i].1@ == field_plan(
                options,
                columns[i + 1].name@,
                columns[i + 1].data_type,
                split_index,
                split_num,
            )
        }
}

/// The position in `splits` of the first split of generated rows.
pub open spec fn first_datagen_split(splits: Seq<SplitImpl>) -> Option<int>
    decreases splits.len(),
{
    if splits.len() == 0 {
        None
    } else {
        match first_datagen_split(splits.drop_last()) {
            Some(at) => Some(at),
            None => if splits.last() is Datagen {
                Some(splits.len() - 1)
            } else {
                None
            },
        }
    }
}

/// The splits that `state` hands to a reader.
pub open spec fn splits_of(state: Option<Vec<SplitImpl>>) -> Seq<SplitImpl> {
    match state {
        Some(splits) => splits@,
        None => Seq::empty(),
    }
}

/// The id of `split`.
pub open spec fn split_id(split: SplitImpl) -> Seq<char> {
    match split {
        SplitImpl::Datagen { id, split } => id@,
        SplitImpl::Other { id } => id@,
    }
}

impl DatagenSplit {
    /// The split of a reader to which none was handed.
    pub open spec fn unassigned() -> DatagenSplit {
        DatagenSplit { split_index: 0, split_num: 0, start_offset: None }
    }

    /// How many rows of the split were generated before.
    pub open spec fn rows_generated(self) -> int {
        match self.start_offset {
            Some(offset) => offset + 1,
            None => 0,
        }
    }
}

impl DatagenSplitReader {
    /// The split that a reader takes from `splits`: the first split of
    /// generated rows.
    pub open spec fn assigned(splits: Seq<SplitImpl>) -> DatagenSplit {
        match first_datagen_split(splits) {
            Some(at) => splits[at]->split,
            None => DatagenSplit::unassigned(),
        }
    }

    /// The id under which a reader that is handed `splits` works: that of
    /// its split, or of the last of `splits` if none is of generated rows.
    pub open spec fn assigned_id(splits: Seq<SplitImpl>) -> Seq<char> {
        match first_datagen_split(splits) {
            Some(at) => split_id(splits[at]),
            None => if splits.len() == 0 {
                Seq::empty()
            } else {
                split_id(splits.last())
            },
        }
    }

    /// Whether `reader` is the reader of `columns` that `properties` and
    /// `splits` describe, at `rows_per_second` rows a second.
    pub open spec fn is_reader_of(
        reader: DatagenSplitReader,
        properties: DatagenProperties,
        splits: Seq<SplitImpl>,
        columns: Seq<Column>,
        rows_per_second: u64,
    ) -> bool {
        let split = Self::assigned(splits);
        &&& reader.assigned_split == split
        &&& reader.generator.rows_per_second == rows_per_second
        &&& reader.generator.events_so_far == split.rows_generated()
        &&& reader.generator.split_id@ == Self::assigned_id(splits)
        &&& reader.generator.split_index == split.split_index as u64
        &&& reader.generator.split_num == split.split_num as u64
        &&& plans_columns(
            reader.generator.fields@,
            columns,
            properties.fields@,
            split.split_index as u64,
            split.split_num as u64,
        )
    }

    /// A reader of the rows of `columns`, on the first split of generated
    /// rows in `state`, continuing after the rows that the split has seen.
    ///
    /// The first column is not generated. Fails if `rows_per_second` is not
    /// a number; otherwise there must be at least two columns.
    pub fn new(
        properties: DatagenProperties,
        state: Option<Vec<SplitImpl>>,
        columns: Option<Vec<Column>>,
    ) -> (made: Result<DatagenSplitReader, DatagenError>)
        requires
            Self::assigned(splits_of(state)).rows_generated() <= u64::MAX,
            parse_u64(properties.rows_per_second@) is Some ==> columns is Some
                && columns.unwrap().len() > 1,
        ensures
            match made {
                Ok(reader) => parse_u64(properties.rows_per_second@) matches Some(rows_per_second)
                    && Self::is_reader_of(
                    reader,
                    properties,
                    splits_of(state),
                    columns.unwrap()@,
                    rows_per_second,
                ),
                Err(error) => parse_u64(properties.rows_per_second@) is None,
            },
    {
        let (assigned_split, split_id) = assign_split(&state);
        let events_so_far: u64 = match assigned_split.start_offset {
            Some(offset) => offset + 1,
            None => 0,
        };
        let split_index: u64 = #[verifier::truncate]
        (assigned_split.split_index as u64);
        let split_num: u64 = #[verifier::truncate]
        (assigned_split.split_num as u64);
        let rows_per_second: u64 = match parse_decimal_u64(properties.rows_per_second.as_str()) {
            Some(rows_per_second) => rows_per_second,
            None => {
                return Err(DatagenError::InvalidRowsPerSecond);
            },
        };
        let columns: Vec<Column> = columns.unwrap();
        let mut fields: Vec<(String, FieldGeneratorImpl)> = Vec::new();
        let mut i: usize = 1;
        while i < columns.len()
            invariant
                1 <= i <= columns.len(),
                fields@.len() + 1 == i,
                forall|k: int|
                    #![trigger fields@[k]]
                    0 <= k < fields@.len() ==> {
                        &&& fields@[k].0@ == columns@[k + 1].name@
                        &&& fields@[k].1@ == field_plan(
                            properties.fields@,
                            columns@[k + 1].name@,
                            columns@[k + 1].data_type,
                            split_index,
                            split_num,
                        )
                    },
            decreases columns.len() - i,
        {
            let column = &columns[i];
            let plan = plan_field(&properties.fields, column, split_index, split_num);
            fields.push((column.name.clone(), plan));
            i += 1;
        }
        Ok(
            DatagenSplitReader {
                generator: DatagenEventGenerator {
                    fields,
                    rows_per_second,
                    events_so_far,
                    split_id,
                    split_num,
                    split_index,
                },
                assigned_split,
            },
        )
    }
}

/// The split that a reader takes from `state`, and the id under which it works.
pub fn assign_split(state: &Option<Vec<SplitImpl>>) -> (assigned: (DatagenSplit, String))
    ensures
        assigned.0 == DatagenSplitReader::assigned(splits_of(*state)),
        assigned.1@ == DatagenSplitReader::assigned_id(splits_of(*state)),
{
    let mut split_id = String::new();
    match state {
        Some(splits) => {
            let mut i: usize = 0;
            while i < splits.len()
                invariant
                    i <= splits.len(),
                    splits_of(*state) == splits@,
                    first_datagen_split(splits@.take(i as int)) is None,
                    split_id@ == DatagenSplitReader::assigned_id(splits@.take(i as int)),
                decreases splits.len() - i,
            {
                assert(splits@.take(i + 1).drop_last() =~= splits@.take(i as int));
                match &splits[i] {
                    SplitImpl::Datagen { id, split } => {
                        proof {
                            assert(splits@.take(i + 1).last() == splits@[i as int]);
                            assert(first_datagen_split(splits@.take(i + 1)) == Some(i as int));
                            lemma_first_datagen_split_stays(splits@, i + 1);
                        }
                        return (*split, id.clone());
                    },
                    SplitImpl::Other { id } => {
                        assert(splits@.take(i + 1).last() == splits@[i as int]);
                        split_id = id.clone();
                    },
                }
                i += 1;
            }
            assert(splits@.take(i as int) =~= splits@);
        },
        None => {},
    }
    (DatagenSplit::default(), split_id)
}

/// The first split of generated rows among the first `taken` splits is the
/// first among them all.
proof fn lemma_first_datagen_split_stays(splits: Seq<SplitImpl>, taken: int)
    requires
        0 <= taken <= splits.len(),
        first_datagen_split(splits.take(taken)) is Some,
    ensures
        first_datagen_split(splits) == first_datagen_split(splits.take(taken)),
        0 <= first_datagen_split(splits)->0 < taken,
        splits[first_datagen_split(splits)->0] is Datagen,
    decreases splits.len(),
{
    if taken == splits.len() {
        assert(splits.take(taken) =~= splits);
        lemma_first_datagen_split_is_datagen(splits);
    } else {
        assert(splits.drop_last().take(taken) =~= splits.take(taken));
        lemma_first_datagen_split_stays(splits.drop_last(), taken);
    }
}

/// What `first_datagen_split` finds is a split of generated rows.
proof fn lemma_first_datagen_split_is_datagen(splits: Seq<SplitImpl>)
    requires
        first_datagen_split(splits) is Some,
    ensures
        0 <= first_datagen_split(splits)->0 < splits.len(),
        splits[first_datagen_split(splits)->0] is Datagen,
    decreases splits.len(),
{
    if splits.len() > 0 && first_datagen_split(splits.drop_last()) is Some {
        lemma_first_datagen_split_is_datagen(splits.drop_last());
    }
}

/// The key under which the setting `setting` of the column `name` is looked up.
pub fn make_field_key(name: &str, setting: &str) -> (key: String)
    ensures
        key@ == field_key(name@, setting@),
{
    let mut key = String::from_str("fields.");
    key.append(name);
    key.append(".");
    key.append(setting);
    key
}

/// The value that `options` gives to `key`, if it gives one.
pub fn find_option(options: &Vec<(String, String)>, key: &String) -> (value: Option<String>)
    ensures
        text_view(value) == option_value(options@, key@),
{
    let mut left: usize = options.len();
    assert(options@.take(left as int) =~= options@);
    while left > 0
        invariant
            left <= options.len(),
            option_value(options@, key@) == option_value(options@.take(left as int), key@),
        decreases left,
    {
        left -= 1;
        assert(options@.take(left + 1).drop_last() =~= options@.take(left as int));
        if options[left].0 == *key {
            return Some(options[left].1.clone());
        }
    }
    None
}

/// The setting `setting` of the column `name` in `options`.
pub fn find_field_option(options: &Vec<(String, String)>, name: &str, setting: &str) -> (value:
    Option<String>)
    ensures
        text_view(value) == field_option(options@, name@, setting@),
{
    let key = make_field_key(name, setting);
    find_option(options, &key)
}

/// Plans the values of `column`: see [`field_plan`].
pub fn plan_field(
    options: &Vec<(String, String)>,
    column: &Column,
    split_index: u64,
    split_num: u64,
) -> (plan: FieldGeneratorImpl)
    ensures
        plan@ == field_plan(options@, column.name@, column.data_type, split_index, split_num),
{
    let name = column.name.as_str();
    let data_type = column.data_type;
    let seed: u64 = match find_field_option(options, name, "seed") {
        Some(text) => match parse_decimal_u64(text.as_str()) {
            Some(seed) => seed ^ split_index,
            None => split_index,
        },
        None => split_index,
    };
    match data_type {
        DataType::Timestamp => FieldGeneratorImpl::Random {
            data_type,
            min: None,
            max: None,
            max_past: find_field_option(options, name, "max_past"),
            length: None,
            seed,
        },
        DataType::Varchar => FieldGeneratorImpl::Random {
            data_type,
            min: None,
            max: None,
            max_past: None,
            length: find_field_option(options, name, "length"),
            seed,
        },
        _ => {
            let sequence = String::from_str("sequence");
            let is_sequence = match find_field_option(options, name, "kind") {
                Some(kind) => kind == sequence,
                None => false,
            };
            if is_sequence {
                FieldGeneratorImpl::Sequence {
                    data_type,
                    start: find_field_option(options, name, "start"),
                    end: find_field_option(options, name, "end"),
                    split_index,
                    split_num,
                }
            } else {
                FieldGeneratorImpl::Random {
                    data_type,
                    min: find_field_option(options, name, "min"),
                    max: find_field_option(options, name, "max"),
                    max_past: None,
                    length: None,
                    seed,
                }
            }
        },
    }
}

} // verus!
