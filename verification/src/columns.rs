//! What is known of a column: its inferred type, the class of statistics that
//! suits it, and the profile that sampling produces.

use vstd::prelude::*;
use crate::text::{ascii_lowercase, chars_of, reads_ignoring_case, views_of};

verus! {

/// The data type inferred for a column.
#[derive(Debug, Clone, Copy, PartialEq, Eq, Structural)]
pub enum CsvColumnDataType {
    /// Truth values (true/false, yes/no, 1/0).
    Boolean,
    /// Whole numbers.
    Integer,
    /// Decimal numbers.
    Float,
    /// Text: what a column is when it is nothing else.
    String,
}

/// Which statistics suit a column.
#[derive(Debug, Clone, Copy, PartialEq, Eq, Structural)]
pub enum CsvFieldType {
    /// Values are counted (text and truth values).
    Categorical,
    /// Values are measured (integers and decimal numbers).
    Continuous,
}

/// The profile of one column.
#[derive(Debug, Clone)]
pub struct CsvColumnInformation {
    /// Position of the column, counted from 0.
    pub column_index: usize,
    /// Name of the column, from the header or generated.
    pub column_name: String,
    /// The type inferred from the samples.
    pub detected_data_type: CsvColumnDataType,
    /// How many values of the column held something.
    pub non_empty_value_count: usize,
    /// How many values of the column were empty.
    pub empty_value_count: usize,
    /// The first few values that held something, in the order met.
    pub sample_values: Vec<String>,
}

/// A column profile as a mathematical value.
pub struct ColumnProfile {
    pub column_index: nat,
    pub column_name: Seq<char>,
    pub detected_data_type: CsvColumnDataType,
    pub non_empty_value_count: nat,
    pub empty_value_count: nat,
    pub sample_values: Seq<Seq<char>>,
}

impl View for CsvColumnInformation {
    type V = ColumnProfile;

    open spec fn view(&self) -> ColumnProfile {
        ColumnProfile {
            column_index: self.column_index as nat,
            column_name: self.column_name@,
            detected_data_type: self.detected_data_type,
            non_empty_value_count: self.non_empty_value_count as nat,
            empty_value_count: self.empty_value_count as nat,
            sample_values: views_of(self.sample_values@),
        }
    }
}

/// The profiles of a list of columns.
pub open spec fn profiles_of(columns: Seq<CsvColumnInformation>) -> Seq<ColumnProfile> {
    columns.map_values(|column: CsvColumnInformation| column@)
}

/// The type that a tag names, where it names one. Tags are in lower case;
/// each type has its tag and a few other names.
pub open spec fn data_type_of_tag(tag: Seq<char>) -> Option<CsvColumnDataType> {
    if tag == "boolean"@ || tag == "bool"@ {
        Some(CsvColumnDataType::Boolean)
    } else if tag == "integer"@ || tag == "int"@ {
        Some(CsvColumnDataType::Integer)
    } else if tag == "float"@ || tag == "decimal"@ || tag == "number"@ {
        Some(CsvColumnDataType::Float)
    } else if tag == "string"@ || tag == "text"@ || tag == "str"@ {
        Some(CsvColumnDataType::String)
    } else {
        None
    }
}

/// The class of statistics that suits a data type.
pub open spec fn field_type_of(data_type: CsvColumnDataType) -> CsvFieldType {
    match data_type {
        CsvColumnDataType::Integer | CsvColumnDataType::Float => CsvFieldType::Continuous,
        CsvColumnDataType::Boolean | CsvColumnDataType::String => CsvFieldType::Categorical,
    }
}

impl CsvColumnDataType {
    /// The tag under which this type is written in a schema document.
    pub open spec fn toml_tag(self) -> Seq<char> {
        match self {
            CsvColumnDataType::Boolean => "boolean"@,
            CsvColumnDataType::Integer => "integer"@,
            CsvColumnDataType::Float => "float"@,
            CsvColumnDataType::String => "string"@,
        }
    }

    /// The tag under which this type is written in a schema document.
    pub fn to_toml_string(&self) -> (tag: &str)
        ensures
            tag@ == self.toml_tag(),
    {
        match self {
            CsvColumnDataType::Boolean => "boolean",
            CsvColumnDataType::Integer => "integer",
            CsvColumnDataType::Float => "float",
            CsvColumnDataType::String => "string",
        }
    }

    /// The type that `toml_string` names, in any mix of upper and lower case.
    pub fn from_toml_string(toml_string: &str) -> (data_type: Option<CsvColumnDataType>)
        ensures
            data_type == data_type_of_tag(ascii_lowercase(toml_string@)),
    {
        let v = chars_of(toml_string);
        let n = v.len();
        assert(v@.subrange(0, n as int) == v@);
        if reads_ignoring_case(&v, 0, n, "boolean") || reads_ignoring_case(&v, 0, n, "bool") {
            Some(CsvColumnDataType::Boolean)
        } else if reads_ignoring_case(&v, 0, n, "integer") || reads_ignoring_case(&v, 0, n, "int") {
            Some(CsvColumnDataType::Integer)
        } else if reads_ignoring_case(&v, 0, n, "float") || reads_ignoring_case(&v, 0, n, "decimal")
            || reads_ignoring_case(&v, 0, n, "number") {
            Some(CsvColumnDataType::Float)
        } else if reads_ignoring_case(&v, 0, n, "string") || reads_ignoring_case(&v, 0, n, "text")
            || reads_ignoring_case(&v, 0, n, "str") {
            Some(CsvColumnDataType::String)
        } else {
            None
        }
    }
}

/// The class of statistics that suits a column of the type given.
pub fn determine_field_type(detected_data_type: &CsvColumnDataType) -> (field_type: CsvFieldType)
    ensures
        field_type == field_type_of(*detected_data_type),
{
    match detected_data_type {
        CsvColumnDataType::Integer | CsvColumnDataType::Float => CsvFieldType::Continuous,
        CsvColumnDataType::Boolean | CsvColumnDataType::String => CsvFieldType::Categorical,
    }
}

/// A copy of a list of strings.
pub fn copy_strings(strings: &Vec<String>) -> (copy: Vec<String>)
    ensures
        views_of(copy@) == views_of(strings@),
{
    let mut copy: Vec<String> = Vec::new();
    let mut i: usize = 0;
    while i < strings.len()
        invariant
            i <= strings.len(),
            views_of(copy@) == views_of(strings@).take(i as int),
        decreases strings.len() - i,
    {
        let ghost earlier = views_of(copy@);
        let item = strings[i].clone();
        copy.push(item);
        assert(views_of(copy@) == earlier.push(item@));
        assert(views_of(strings@).take(i + 1) == views_of(strings@).take(i as int).push(
            strings@[i as int]@,
        ));
        i += 1;
    }
    assert(views_of(strings@).take(strings.len() as int) == views_of(strings@));
    copy
}

impl CsvColumnInformation {
    /// A copy of this profile.
    pub fn duplicate(&self) -> (copy: CsvColumnInformation)
        ensures
            copy@ == self@,
    {
        CsvColumnInformation {
            column_index: self.column_index,
            column_name: self.column_name.clone(),
            detected_data_type: self.detected_data_type,
            non_empty_value_count: self.non_empty_value_count,
            empty_value_count: self.empty_value_count,
            sample_values: copy_strings(&self.sample_values),
        }
    }
}

/// Reading back the tag of a type gives the type.
pub proof fn lemma_toml_tag_round_trip(data_type: CsvColumnDataType)
    ensures
        data_type_of_tag(ascii_lowercase(data_type.toml_tag())) == Some(data_type),
{
    reveal_strlit("boolean");
    reveal_strlit("bool");
    reveal_strlit("integer");
    reveal_strlit("int");
    reveal_strlit("float");
    reveal_strlit("decimal");
    reveal_strlit("number");
    reveal_strlit("string");
    reveal_strlit("text");
    reveal_strlit("str");
    let tag = data_type.toml_tag();
    assert(ascii_lowercase(tag) =~= tag);
    assert("boolean"@[0] == 'b' && "bool"@[0] == 'b');
    assert("integer"@[0] == 'i' && "int"@[0] == 'i');
    assert("float"@[0] == 'f');
    assert("decimal"@[0] == 'd');
    assert("number"@[0] == 'n');
    assert("string"@[0] == 's' && "string"@.len() == 6);
    assert("boolean"@.len() == 7 && "bool"@.len() == 4);
    assert("integer"@.len() == 7 && "int"@.len() == 3);
    assert(data_type_of_tag(tag) == Some(data_type));
}

} // verus!
