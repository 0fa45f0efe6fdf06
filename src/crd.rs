use vstd::prelude::*;
use vstd::string::*;

use crate::error::Error;

verus! {

/// The desired state declared by a `DummySite` object.
pub struct DummySiteSpec {
    /// Address whose content the site serves.
    pub website_url: String,
}

pub const GROUP: &'static str = "stable.dwk";

pub const VERSION: &'static str = "v1";

pub const KIND: &'static str = "DummySite";

pub const PLURAL: &'static str = "dummysites";

pub const URL_COLUMN_NAME: &'static str = "Website URL";

pub const URL_COLUMN_TYPE: &'static str = "string";

pub const URL_COLUMN_PATH: &'static str = ".spec.website_url";

pub const AGE_COLUMN_NAME: &'static str = "Age";

pub const AGE_COLUMN_TYPE: &'static str = "date";

pub const AGE_COLUMN_PATH: &'static str = ".metadata.creationTimestamp";

/// A column that listings of the resource show.
pub struct PrinterColumn {
    pub name: String,
    pub column_type: String,
    pub json_path: String,
}

impl View for PrinterColumn {
    type V = (Seq<char>, Seq<char>, Seq<char>);

    open spec fn view(&self) -> (Seq<char>, Seq<char>, Seq<char>) {
        (self.name@, self.column_type@, self.json_path@)
    }
}

/// How the store knows the custom resource kind: group, version, kind,
/// plural, scope and the columns of its listings.
pub struct ResourceDescriptor {
    pub group: String,
    pub version: String,
    pub kind: String,
    pub plural: String,
    pub namespaced: bool,
    pub printer_columns: Vec<PrinterColumn>,
}

pub open spec fn printer_columns_view(v: Seq<PrinterColumn>) -> Seq<(Seq<char>, Seq<char>, Seq<char>)> {
    v.map_values(|c: PrinterColumn| c@)
}

impl ResourceDescriptor {
    /// The descriptor of `DummySite`: namespaced, listed with its URL and age.
    pub open spec fn is_dummysite(&self) -> bool {
        &&& self.group@ == GROUP@
        &&& self.version@ == VERSION@
        &&& self.kind@ == KIND@
        &&& self.plural@ == PLURAL@
        &&& self.namespaced
        &&& printer_columns_view(self.printer_columns@) == seq![
            (URL_COLUMN_NAME@, URL_COLUMN_TYPE@, URL_COLUMN_PATH@),
            (AGE_COLUMN_NAME@, AGE_COLUMN_TYPE@, AGE_COLUMN_PATH@),
        ]
    }
}

fn column(name: &str, column_type: &str, json_path: &str) -> (r: PrinterColumn)
    ensures
        r@ == (name@, column_type@, json_path@),
{
    PrinterColumn {
        name: String::from_str(name),
        column_type: String::from_str(column_type),
        json_path: String::from_str(json_path),
    }
}

/// The identity fields of an object as the store returns them.
pub struct ObjectMeta {
    pub name: Option<String>,
    pub namespace: Option<String>,
    pub resource_version: Option<String>,
}

/// A point-in-time read of one `DummySite` custom resource.
pub struct DummySite {
    pub metadata: ObjectMeta,
    pub spec: DummySiteSpec,
}

impl DummySite {
    /// The descriptor under which the store serves this kind.
    pub fn descriptor() -> (r: ResourceDescriptor)
        ensures
            r.is_dummysite(),
    {
        let mut columns: Vec<PrinterColumn> = Vec::new();
        columns.push(column(URL_COLUMN_NAME, URL_COLUMN_TYPE, URL_COLUMN_PATH));
        columns.push(column(AGE_COLUMN_NAME, AGE_COLUMN_TYPE, AGE_COLUMN_PATH));
        let r = ResourceDescriptor {
            group: String::from_str(GROUP),
            version: String::from_str(VERSION),
            kind: String::from_str(KIND),
            plural: String::from_str(PLURAL),
            namespaced: true,
            printer_columns: columns,
        };
        assert(printer_columns_view(r.printer_columns@) =~= seq![
            (URL_COLUMN_NAME@, URL_COLUMN_TYPE@, URL_COLUMN_PATH@),
            (AGE_COLUMN_NAME@, AGE_COLUMN_TYPE@, AGE_COLUMN_PATH@),
        ]);
        r
    }

    /// The object's name, or `MissingName` when the store gave none.
    pub fn name(&self) -> (r: Result<String, Error>)
        ensures
            self.metadata.name is None ==> r == Err::<String, Error>(Error::MissingName),
            self.metadata.name is Some ==> r is Ok && r->Ok_0@ == self.metadata.name->Some_0@,
    {
        match &self.metadata.name {
            Some(n) => Ok(n.clone()),
            None => Err(Error::MissingName),
        }
    }

    /// The object's namespace, or `MissingNamespace` when the store gave none.
    pub fn namespace(&self) -> (r: Result<String, Error>)
        ensures
            self.metadata.namespace is None ==> r == Err::<String, Error>(Error::MissingNamespace),
            self.metadata.namespace is Some ==> r is Ok && r->Ok_0@
                == self.metadata.namespace->Some_0@,
    {
        match &self.metadata.namespace {
            Some(n) => Ok(n.clone()),
            None => Err(Error::MissingNamespace),
        }
    }
}

/// The identity of one custom resource: namespace and name.
pub struct ObjectRef {
    pub namespace: String,
    pub name: String,
}

impl View for ObjectRef {
    type V = (Seq<char>, Seq<char>);

    open spec fn view(&self) -> (Seq<char>, Seq<char>) {
        (self.namespace@, self.name@)
    }
}

impl ObjectRef {
    pub fn new(namespace: &str, name: &str) -> (r: ObjectRef)
        ensures
            r@ == (namespace@, name@),
    {
        ObjectRef { namespace: String::from_str(namespace), name: String::from_str(name) }
    }

    /// Whether both name the same object.
    pub fn same_as(&self, other: &ObjectRef) -> (r: bool)
        ensures
            r == (self@ == other@),
    {
        self.namespace.eq(&other.namespace) && self.name.eq(&other.name)
    }

    pub fn duplicate(&self) -> (r: ObjectRef)
        ensures
            r@ == self@,
    {
        ObjectRef { namespace: self.namespace.clone(), name: self.name.clone() }
    }
}

} // verus!
