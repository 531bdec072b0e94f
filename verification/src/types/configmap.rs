//! Configuration objects: what is submitted for one, and how its data is read
//! back.
use vstd::prelude::*;
use vstd::string::*;

use crate::string_map::StringMap;
use crate::text::join3;
use crate::{Error, ErrorView};

verus! {

/// The full desired state of one configuration object.
#[derive(Debug)]
pub struct ConfigMapDefinition {
    pub name: String,
    pub namespace: String,
    pub data: StringMap,
    pub labels: StringMap,
}

pub struct ConfigMapDefinitionView {
    pub name: Seq<char>,
    pub namespace: Seq<char>,
    pub data: Map<Seq<char>, Seq<char>>,
    pub labels: Map<Seq<char>, Seq<char>>,
}

impl View for ConfigMapDefinition {
    type V = ConfigMapDefinitionView;

    open spec fn view(&self) -> ConfigMapDefinitionView {
        ConfigMapDefinitionView {
            name: self.name@,
            namespace: self.namespace@,
            data: self.data@,
            labels: self.labels@,
        }
    }
}

/// Builds the definition of the configuration object `name` in `namespace`.
pub fn definition(name: &str, namespace: &str, data: StringMap, labels: StringMap) -> (d:
    ConfigMapDefinition)
    ensures
        d@ == (ConfigMapDefinitionView {
            name: name@,
            namespace: namespace@,
            data: data@,
            labels: labels@,
        }),
{
    ConfigMapDefinition {
        name: String::from_str(name),
        namespace: String::from_str(namespace),
        data,
        labels,
    }
}

/// A configuration object as observed on the control plane: its data, if it
/// holds any.
#[derive(Debug)]
pub struct ObservedConfigMap {
    pub data: Option<StringMap>,
}

/// What a lookup by name returned, as far as its data goes: nothing found,
/// an object without data, or the data.
pub enum Lookup {
    Absent,
    Empty,
    Data(Map<Seq<char>, Seq<char>>),
}

/// The lookup that an observation stands for.
pub open spec fn lookup(found: Option<ObservedConfigMap>) -> Lookup {
    match found {
        None => Lookup::Absent,
        Some(object) => match object.data {
            None => Lookup::Empty,
            Some(data) => Lookup::Data(data@),
        },
    }
}

/// The data of the configuration object `name`, which must exist and hold
/// data.
pub open spec fn get_data_spec(name: Seq<char>, found: Lookup) -> Result<
    Map<Seq<char>, Seq<char>>,
    ErrorView,
> {
    match found {
        Lookup::Absent => Err(ErrorView::ConfigMapError("ConfigMap "@ + name + " not found"@)),
        Lookup::Empty => Err(ErrorView::ConfigMapError("ConfigMap missing data"@)),
        Lookup::Data(data) => Ok(data),
    }
}

/// The data of a configuration object that need not exist, but must hold data
/// where it does.
pub open spec fn get_data_opt_spec(found: Lookup) -> Result<
    Option<Map<Seq<char>, Seq<char>>>,
    ErrorView,
> {
    match found {
        Lookup::Absent => Ok(None),
        Lookup::Empty => Err(ErrorView::ConfigMapError("ConfigMap missing data"@)),
        Lookup::Data(data) => Ok(Some(data)),
    }
}

/// The view of data, or of the error in its place.
pub open spec fn data_view(data: Result<StringMap, Error>) -> Result<
    Map<Seq<char>, Seq<char>>,
    ErrorView,
> {
    match data {
        Ok(map) => Ok(map@),
        Err(e) => Err(e@),
    }
}

/// The view of optional data, or of the error in its place.
pub open spec fn data_opt_view(data: Result<Option<StringMap>, Error>) -> Result<
    Option<Map<Seq<char>, Seq<char>>>,
    ErrorView,
> {
    match data {
        Ok(Some(map)) => Ok(Some(map@)),
        Ok(None) => Ok(None),
        Err(e) => Err(e@),
    }
}

/// Reads the data of the configuration object `name` off what a lookup by
/// that name returned.
pub fn get_data(name: &str, found: Option<ObservedConfigMap>) -> (data: Result<StringMap, Error>)
    ensures
        data_view(data) == get_data_spec(name@, lookup(found)),
{
    match found {
        None => Err(Error::ConfigMapError(join3("ConfigMap ", name, " not found"))),
        Some(object) => match object.data {
            None => Err(Error::ConfigMapError(String::from_str("ConfigMap missing data"))),
            Some(data) => Ok(data),
        },
    }
}

/// Reads the data of a configuration object off what a lookup returned, where
/// finding nothing is no error.
pub fn get_data_opt(found: Option<ObservedConfigMap>) -> (data: Result<Option<StringMap>, Error>)
    ensures
        data_opt_view(data) == get_data_opt_spec(lookup(found)),
{
    match found {
        None => Ok(None),
        Some(object) => match object.data {
            None => Err(Error::ConfigMapError(String::from_str("ConfigMap missing data"))),
            Some(data) => Ok(Some(data)),
        },
    }
}

} // verus!
