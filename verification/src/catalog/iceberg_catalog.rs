//! The catalog that the table-format layer sees during a commit: one table,
//! whose state the server keeps.

use vstd::prelude::*;

use crate::catalog::table_state::{FileIo, MEMORY_HANDLE};
use crate::error::{IcebergErrorKind, IcebergLiteError};
use crate::text::texts;

verus! {

/// The name of a catalog that is given no other.
pub const DEFAULT_CATALOG_NAME: &'static str = "PostgreSQL";

/// The levels of a namespace.
#[derive(Debug, PartialEq, Eq)]
pub struct NamespaceIdent {
    pub levels: Vec<String>,
}

/// A table by namespace and name.
#[derive(Debug, PartialEq, Eq)]
pub struct TableIdent {
    pub namespace: NamespaceIdent,
    pub name: String,
}

/// A table by namespace and name.
pub struct TableIdentView {
    pub namespace: Seq<Seq<char>>,
    pub name: Seq<char>,
}

impl View for TableIdent {
    type V = TableIdentView;

    open spec fn view(&self) -> TableIdentView {
        TableIdentView { namespace: texts(self.namespace.levels@), name: self.name@ }
    }
}

/// A loaded table; the handle names its metadata.
#[derive(Debug)]
pub struct CatalogTable {
    pub identifier: TableIdent,
    pub metadata_handle: u64,
}

/// What a new table is to be.
#[derive(Debug)]
pub struct TableCreation {
    pub name: String,
    pub location: Option<String>,
}

/// A new table whose metadata is to be written.
#[derive(Debug)]
pub struct PlannedTable {
    pub identifier: TableIdent,
    pub location: String,
}

pub type CatalogResult<T> = Result<T, IcebergLiteError>;

/// The list of some strings as Rust's `Debug` writes it.
pub uninterp spec fn debug_list(names: Seq<Seq<char>>) -> Seq<char>;

/// Formats strings with the `Debug` form of `Vec<String>` in std. The claim is
/// that the result depends on the strings alone; how the form quotes them is
/// left unsaid.
#[verifier::external_body]
fn debug_names(names: &Vec<String>) -> (r: String)
    ensures
        r@ == debug_list(texts(names@)),
{
    format!("{:?}", names)
}

/// Strings joined by dots.
pub open spec fn dotted(levels: Seq<Seq<char>>) -> Seq<char>
    decreases levels.len(),
{
    if levels.len() == 0 {
        Seq::empty()
    } else if levels.len() == 1 {
        levels[0]
    } else {
        dotted(levels.drop_last()) + "."@ + levels.last()
    }
}

/// A table as it is named in messages.
pub open spec fn table_text(ident: TableIdentView) -> Seq<char> {
    dotted(ident.namespace) + "."@ + ident.name
}

fn render_table(ident: &TableIdent) -> (r: String)
    ensures
        r@ == table_text(ident@),
{
    let levels = &ident.namespace.levels;
    let ghost all = texts(levels@);
    let mut text = String::new();
    let mut i: usize = 0;
    assert(all.take(0) =~= Seq::<Seq<char>>::empty());
    assert(text@ =~= Seq::<char>::empty());
    while i < levels.len()
        invariant
            i <= levels@.len(),
            all == texts(levels@),
            text@ == dotted(all.take(i as int)),
        decreases levels@.len() - i,
    {
        proof {
            assert(all.take(i + 1).drop_last() =~= all.take(i as int));
            assert(all.take(i + 1).last() == levels@[i as int]@);
        }
        if i > 0 {
            text.append(".");
        }
        text.append(levels[i].as_str());
        proof {
            if i == 0 {
                assert(text@ =~= levels@[0]@);
            }
        }
        i = i + 1;
    }
    assert(all.take(levels@.len() as int) =~= all);
    text.append(".");
    text.append(ident.name.as_str());
    text
}

/// Whether a failure says that a catalog method is not there.
pub open spec fn reports_unsupported(e: IcebergLiteError, method: Seq<char>) -> bool {
    e.kind == IcebergErrorKind::FeatureUnsupported && e.message@
        == "PostgreSQL Iceberg catalog method `"@ + method + "` is not implemented yet"@
}

/// Whether a failure says that the catalog does not hold a table.
pub open spec fn reports_not_found(e: IcebergLiteError, ident: TableIdentView) -> bool {
    e.kind == IcebergErrorKind::DataInvalid && e.message@ == "Table "@ + table_text(ident)
        + " not found in catalog"@
}

/// Whether a failure says that a namespace cannot be used.
pub open spec fn refuses_namespace(e: IcebergLiteError, levels: Seq<Seq<char>>) -> bool {
    e.kind == IcebergErrorKind::DataInvalid && e.message@ == if levels.len() != 1 {
        "Invalid namespaces name: NamespaceIdent("@ + debug_list(levels)
            + "), hierarchical namespaces are not supported"@
    } else {
        "Invalid namespaces, provided namespace is empty."@
    }
}

/// The refusal of a namespace that has not one level, whose levels are listed
/// as `levels`.
pub fn hierarchical_namespace(levels: &str) -> (r: IcebergLiteError)
    ensures
        r.kind == IcebergErrorKind::DataInvalid,
        r.message@ == "Invalid namespaces name: NamespaceIdent("@ + levels@
            + "), hierarchical namespaces are not supported"@,
{
    let mut message = "Invalid namespaces name: NamespaceIdent(".to_owned();
    message.append(levels);
    message.append("), hierarchical namespaces are not supported");
    IcebergLiteError { kind: IcebergErrorKind::DataInvalid, message }
}

/// The name of a namespace, which must have one level and a name.
pub fn validate_namespace(namespace: &NamespaceIdent) -> (r: CatalogResult<String>)
    ensures
        match r {
            Ok(name) => texts(namespace.levels@) == seq![name@] && name@.len() > 0,
            Err(e) => (namespace.levels@.len() != 1 || namespace.levels@[0]@.len() == 0)
                && refuses_namespace(e, texts(namespace.levels@)),
        },
{
    if namespace.levels.len() != 1 {
        let levels = debug_names(&namespace.levels);
        return Err(hierarchical_namespace(levels.as_str()));
    }
    let name = namespace.levels[0].clone();
    if name.as_str().is_empty() {
        return Err(
            IcebergLiteError {
                kind: IcebergErrorKind::DataInvalid,
                message: "Invalid namespaces, provided namespace is empty.".to_owned(),
            },
        );
    }
    assert(texts(namespace.levels@) =~= seq![name@]);
    Ok(name)
}

/// The catalog.
#[derive(Debug)]
pub struct IcebergCatalog {
    name: String,
    file_io: FileIo,
    table: Option<CatalogTable>,
}

/// The catalog.
pub struct CatalogView {
    pub name: Seq<char>,
    pub file_io: FileIo,
    pub table: Option<CatalogTable>,
}

impl View for IcebergCatalog {
    type V = CatalogView;

    closed spec fn view(&self) -> CatalogView {
        CatalogView { name: self.name@, file_io: self.file_io, table: self.table }
    }
}

fn unsupported_catalog_method(method: &'static str) -> (r: IcebergLiteError)
    ensures
        reports_unsupported(r, method@),
{
    let mut message = "PostgreSQL Iceberg catalog method `".to_owned();
    message.append(method);
    message.append("` is not implemented yet");
    IcebergLiteError { kind: IcebergErrorKind::FeatureUnsupported, message }
}

impl Default for IcebergCatalog {
    /// A catalog without a table, under the usual name, with its storage in
    /// memory.
    fn default() -> (r: Self)
        ensures
            r@ == (CatalogView {
                name: DEFAULT_CATALOG_NAME@,
                file_io: (FileIo { handle: MEMORY_HANDLE }),
                table: None,
            }),
    {
        Self::new_pg(FileIo::memory())
    }
}

impl IcebergCatalog {
    /// A catalog without a table.
    pub fn new(name: String, file_io: FileIo) -> (r: Self)
        ensures
            r@ == (CatalogView { name: name@, file_io, table: None }),
    {
        IcebergCatalog { name, file_io, table: None }
    }

    /// A catalog without a table, under the usual name.
    pub fn new_pg(file_io: FileIo) -> (r: Self)
        ensures
            r@ == (CatalogView { name: DEFAULT_CATALOG_NAME@, file_io, table: None }),
    {
        Self::new(DEFAULT_CATALOG_NAME.to_owned(), file_io)
    }

    /// A catalog with a table.
    pub fn with_table(name: String, file_io: FileIo, table: CatalogTable) -> (r: Self)
        ensures
            r@ == (CatalogView { name: name@, file_io, table: Some(table) }),
    {
        IcebergCatalog { name, file_io, table: Some(table) }
    }

    /// A catalog with a table, under the usual name.
    pub fn with_table_pg(file_io: FileIo, table: CatalogTable) -> (r: Self)
        ensures
            r@ == (CatalogView { name: DEFAULT_CATALOG_NAME@, file_io, table: Some(table) }),
    {
        Self::with_table(DEFAULT_CATALOG_NAME.to_owned(), file_io, table)
    }

    /// The catalog's name.
    pub fn name(&self) -> (r: &str)
        ensures
            r@ == self@.name,
    {
        self.name.as_str()
    }

    /// The storage of the catalog's tables.
    pub fn file_io(&self) -> (r: FileIo)
        ensures
            r == self@.file_io,
    {
        self.file_io
    }

    /// The catalog lists no namespaces.
    pub fn list_namespaces(&self, parent: Option<&NamespaceIdent>) -> (r: CatalogResult<
        Vec<NamespaceIdent>,
    >)
        ensures
            r matches Err(e) && reports_unsupported(e, "list_namespaces"@),
    {
        Err(unsupported_catalog_method("list_namespaces"))
    }

    /// The catalog creates no namespaces.
    pub fn create_namespace(&self, namespace: &NamespaceIdent) -> (r: CatalogResult<NamespaceIdent>)
        ensures
            r matches Err(e) && reports_unsupported(e, "create_namespace"@),
    {
        Err(unsupported_catalog_method("create_namespace"))
    }

    /// The catalog holds no namespaces.
    pub fn get_namespace(&self, namespace: &NamespaceIdent) -> (r: CatalogResult<NamespaceIdent>)
        ensures
            r matches Err(e) && reports_unsupported(e, "get_namespace"@),
    {
        Err(unsupported_catalog_method("get_namespace"))
    }

    /// The catalog knows of no namespaces.
    pub fn namespace_exists(&self, namespace: &NamespaceIdent) -> (r: CatalogResult<bool>)
        ensures
            r matches Err(e) && reports_unsupported(e, "namespace_exists"@),
    {
        Err(unsupported_catalog_method("namespace_exists"))
    }

    /// The catalog changes no namespaces.
    pub fn update_namespace(&self, namespace: &NamespaceIdent) -> (r: CatalogResult<()>)
        ensures
            r matches Err(e) && reports_unsupported(e, "update_namespace"@),
    {
        Err(unsupported_catalog_method("update_namespace"))
    }

    /// The catalog drops no namespaces.
    pub fn drop_namespace(&self, namespace: &NamespaceIdent) -> (r: CatalogResult<()>)
        ensures
            r matches Err(e) && reports_unsupported(e, "drop_namespace"@),
    {
        Err(unsupported_catalog_method("drop_namespace"))
    }

    /// The catalog lists no tables.
    pub fn list_tables(&self, namespace: &NamespaceIdent) -> (r: CatalogResult<Vec<TableIdent>>)
        ensures
            r matches Err(e) && reports_unsupported(e, "list_tables"@),
    {
        Err(unsupported_catalog_method("list_tables"))
    }

    /// The catalog drops no tables.
    pub fn drop_table(&self, table: &TableIdent) -> (r: CatalogResult<()>)
        ensures
            r matches Err(e) && reports_unsupported(e, "drop_table"@),
    {
        Err(unsupported_catalog_method("drop_table"))
    }

    /// The catalog renames no tables.
    pub fn rename_table(&self, src: &TableIdent, dest: &TableIdent) -> (r: CatalogResult<()>)
        ensures
            r matches Err(e) && reports_unsupported(e, "rename_table"@),
    {
        Err(unsupported_catalog_method("rename_table"))
    }

    /// The catalog registers no tables.
    pub fn register_table(&self, table: &TableIdent, metadata_location: &str) -> (r: CatalogResult<()>)
        ensures
            r matches Err(e) && reports_unsupported(e, "register_table"@),
    {
        Err(unsupported_catalog_method("register_table"))
    }

    /// The table to be created: it needs a namespace of one level and a
    /// location.
    pub fn create_table(&self, namespace: &NamespaceIdent, creation: TableCreation) -> (r: CatalogResult<
        PlannedTable,
    >)
        ensures
            match r {
                Ok(planned) => {
                    &&& texts(namespace.levels@).len() == 1 && texts(namespace.levels@)[0].len() > 0
                    &&& creation.location is Some
                    &&& planned.identifier@ == (TableIdentView {
                        namespace: texts(namespace.levels@),
                        name: creation.name@,
                    })
                    &&& planned.location@ == creation.location->Some_0@
                },
                Err(e) => if namespace.levels@.len() != 1 || namespace.levels@[0]@.len() == 0 {
                    refuses_namespace(e, texts(namespace.levels@))
                } else {
                    creation.location is None && e.kind == IcebergErrorKind::DataInvalid && e.message@
                        == "Table location is required. Please specify a storage location for the table."@
                },
            },
    {
        let namespace_name = match validate_namespace(namespace) {
            Ok(name) => name,
            Err(e) => {
                return Err(e);
            },
        };
        proof {
            let levels = texts(namespace.levels@);
            assert(levels.len() == 1 && levels[0] == namespace.levels@[0]@);
        }
        let location = match creation.location {
            Some(location) => location,
            None => {
                return Err(
                    IcebergLiteError {
                        kind: IcebergErrorKind::DataInvalid,
                        message:
                            "Table location is required. Please specify a storage location for the table.".to_owned(),
                    },
                );
            },
        };
        let mut levels: Vec<String> = Vec::new();
        levels.push(namespace_name);
        assert(texts(levels@) =~= texts(namespace.levels@));
        Ok(
            PlannedTable {
                identifier: TableIdent { namespace: NamespaceIdent { levels }, name: creation.name },
                location,
            },
        )
    }

    /// The table, whatever its name; there must be one.
    pub fn load_table(&self, table_ident: &TableIdent) -> (r: CatalogResult<&CatalogTable>)
        ensures
            match r {
                Ok(table) => self@.table == Some(*table),
                Err(e) => self@.table is None && reports_not_found(e, table_ident@),
            },
    {
        match &self.table {
            Some(table) => Ok(table),
            None => {
                let mut message = "Table ".to_owned();
                let name = render_table(table_ident);
                message.append(name.as_str());
                message.append(" not found in catalog");
                Err(IcebergLiteError { kind: IcebergErrorKind::DataInvalid, message })
            },
        }
    }

    /// The table that a commit applies to; there must be one.
    pub fn update_table(&self, committed: &TableIdent) -> (r: CatalogResult<&CatalogTable>)
        ensures
            match r {
                Ok(table) => self@.table == Some(*table),
                Err(e) => self@.table is None && reports_not_found(e, committed@),
            },
    {
        self.load_table(committed)
    }

    /// Whether the table has this name.
    pub fn table_exists(&self, table_ident: &TableIdent) -> (r: bool)
        ensures
            r == (self@.table is Some && self@.table->Some_0.identifier@ == table_ident@),
    {
        match &self.table {
            Some(table) => same_table(&table.identifier, table_ident),
            None => false,
        }
    }
}

fn same_table(a: &TableIdent, b: &TableIdent) -> (r: bool)
    ensures
        r == (a@ == b@),
{
    if a.name != b.name {
        return false;
    }
    let x = &a.namespace.levels;
    let y = &b.namespace.levels;
    if x.len() != y.len() {
        assert(texts(x@).len() != texts(y@).len());
        return false;
    }
    let mut i: usize = 0;
    while i < x.len()
        invariant
            i <= x@.len(),
            x@.len() == y@.len(),
            x@ == a.namespace.levels@,
            y@ == b.namespace.levels@,
            forall|k: int| 0 <= k < i ==> texts(x@)[k] == #[trigger] texts(y@)[k],
        decreases x@.len() - i,
    {
        if x[i] != y[i] {
            assert(texts(x@)[i as int] != texts(y@)[i as int]);
            return false;
        }
        i = i + 1;
    }
    assert(texts(x@) =~= texts(y@));
    true
}

} // verus!
