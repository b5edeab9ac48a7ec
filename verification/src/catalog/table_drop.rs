//! What dropping a table comes to.

use vstd::prelude::*;

use crate::Oid;
use crate::catalog::table_lifecycle::{
    TableLocator, compute_table_location, local_directory,
};

verus! {

/// A tree of objects in an object store.
#[derive(Debug)]
pub struct ObjectTreeTarget {
    pub store_id: String,
    pub object_namespace: String,
    pub object_path: String,
}

/// Where the files of a dropped table are.
#[derive(Debug)]
pub enum TableRootCleanup {
    Local { location: String },
    Remote(ObjectTreeTarget),
}

impl TableRootCleanup {
    /// Whether this is where the files of a table are: in its object store, or
    /// on the server's own disk where it has none.
    pub open spec fn is_for(
        self,
        locator: TableLocator,
        remote: Option<ObjectTreeTarget>,
        version_directory: Seq<char>,
    ) -> bool {
        match (self, remote) {
            (TableRootCleanup::Remote(target), Some(tree)) => target == tree,
            (TableRootCleanup::Local { location }, None) => location@ == local_directory(
                locator,
                version_directory,
            ),
            _ => false,
        }
    }

    /// Where the files of a table are. `remote` is the tree that the table's
    /// key names in its object store, where it has one.
    pub fn resolve(
        locator: TableLocator,
        remote: Option<ObjectTreeTarget>,
        version_directory: &str,
    ) -> (r: Self)
        ensures
            r.is_for(locator, remote, version_directory@),
    {
        match remote {
            Some(target) => TableRootCleanup::Remote(target),
            None => TableRootCleanup::Local {
                location: compute_table_location(locator, "", false, version_directory),
            },
        }
    }
}

/// One thing to do to drop a table.
#[derive(Debug)]
pub enum DropStep {
    /// Forget the transaction's changes of the table.
    StageDrop { relid: Oid },
    /// Remove the directory when the transaction commits.
    RemoveLocalRoot { location: String },
    /// Have the tree of objects deleted once the transaction commits.
    EnqueueDeleteTree {
        target: ObjectTreeTarget,
        producer: &'static str,
        source_relid: Oid,
        source_name: String,
    },
    /// Delete the row with the metadata location, if there is one.
    DeleteMetadataRow { relid: Oid },
    /// Delete the table's options.
    DeleteTableOptions { relid: Oid },
}

/// A table that is dropped.
#[derive(Debug)]
pub struct IcebergTableDrop {
    relid: Oid,
    relation_name: String,
    cleanup: TableRootCleanup,
}

impl IcebergTableDrop {
    /// The table's identifier.
    pub closed spec fn relid(self) -> Oid {
        self.relid
    }

    /// The table's name.
    pub closed spec fn relation_name(self) -> Seq<char> {
        self.relation_name@
    }

    /// Where the table's files are.
    pub closed spec fn cleanup(self) -> TableRootCleanup {
        self.cleanup
    }

    /// The drop of a table.
    pub fn for_relation(
        relid: Oid,
        relation_name: String,
        locator: TableLocator,
        remote: Option<ObjectTreeTarget>,
        version_directory: &str,
    ) -> (r: Self)
        ensures
            r.relid() == relid,
            r.relation_name() == relation_name@,
            r.cleanup().is_for(locator, remote, version_directory@),
    {
        IcebergTableDrop {
            relid,
            relation_name,
            cleanup: TableRootCleanup::resolve(locator, remote, version_directory),
        }
    }

    /// What to do, in this order.
    pub fn stage(self) -> (r: Vec<DropStep>)
        ensures
            r@.len() == 4,
            r@[0] == (DropStep::StageDrop { relid: self.relid() }),
            match (self.cleanup(), r@[1]) {
                (
                    TableRootCleanup::Local { location },
                    DropStep::RemoveLocalRoot { location: removed },
                ) => removed@ == location@,
                (
                    TableRootCleanup::Remote(tree),
                    DropStep::EnqueueDeleteTree { target, producer, source_relid, source_name },
                ) => {
                    &&& target == tree
                    &&& producer@ == "iceberg-drop"@
                    &&& source_relid == self.relid()
                    &&& source_name@ == self.relation_name()
                },
                _ => false,
            },
            r@[2] == (DropStep::DeleteMetadataRow { relid: self.relid() }),
            r@[3] == (DropStep::DeleteTableOptions { relid: self.relid() }),
    {
        let mut steps: Vec<DropStep> = Vec::new();
        steps.push(DropStep::StageDrop { relid: self.relid });
        match self.cleanup {
            TableRootCleanup::Local { location } => {
                steps.push(DropStep::RemoveLocalRoot { location });
            },
            TableRootCleanup::Remote(target) => {
                steps.push(
                    DropStep::EnqueueDeleteTree {
                        target,
                        producer: "iceberg-drop",
                        source_relid: self.relid,
                        source_name: self.relation_name,
                    },
                );
            },
        }
        steps.push(DropStep::DeleteMetadataRow { relid: self.relid });
        steps.push(DropStep::DeleteTableOptions { relid: self.relid });
        steps
    }
}

} // verus!
