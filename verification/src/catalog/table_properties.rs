//! Property changes of a table that a statement prepared.

use vstd::prelude::*;

use crate::catalog::table_metadata::{FormatVersion, TableMetadata};
use crate::error::{IcebergError, IcebergErrorKind, IcebergLiteError, IcebergResult};

verus! {

/// A property and its value.
#[derive(Debug, PartialEq, Eq)]
pub struct TableProperty {
    pub key: String,
    pub value: String,
}

/// The properties that a table is to have, fully resolved.
#[derive(Debug)]
pub struct PreparedTablePropertyUpdate {
    pub format_version: FormatVersion,
    pub properties: Vec<TableProperty>,
}

/// A property map after some properties were set in order.
pub open spec fn with_properties(
    base: Map<Seq<char>, Seq<char>>,
    properties: Seq<TableProperty>,
) -> Map<Seq<char>, Seq<char>>
    decreases properties.len(),
{
    if properties.len() == 0 {
        base
    } else {
        with_properties(base, properties.drop_last()).insert(
            properties.last().key@,
            properties.last().value@,
        )
    }
}

/// The refusal to change the format version.
pub open spec fn version_refused(e: IcebergError, from: FormatVersion, to: FormatVersion) -> bool {
    e matches IcebergError::IcebergLiteError(inner) && inner.kind == IcebergErrorKind::FeatureUnsupported
        && inner.message@ == "ALTER TABLE cannot change Iceberg format version from "@ + from.name()
        + " to "@ + to.name()
}

impl PreparedTablePropertyUpdate {
    /// Takes resolved options as an update.
    pub fn from_options(format_version: FormatVersion, properties: Vec<TableProperty>) -> (r: Self)
        ensures
            r.format_version == format_version,
            r.properties == properties,
    {
        PreparedTablePropertyUpdate { format_version, properties }
    }

    /// Accepts the metadata that the update starts from, unless the update
    /// would change the format version.
    pub fn validate_base_metadata(&self, metadata: &TableMetadata) -> (r: IcebergResult<()>)
        ensures
            metadata.format_version == self.format_version ==> r == Ok::<(), IcebergError>(()),
            metadata.format_version != self.format_version ==> r is Err && version_refused(
                r->Err_0,
                metadata.format_version,
                self.format_version,
            ),
    {
        if metadata.format_version != self.format_version {
            let mut message = "ALTER TABLE cannot change Iceberg format version from ".to_owned();
            message.append(metadata.format_version.as_str());
            message.append(" to ");
            message.append(self.format_version.as_str());
            return Err(
                IcebergError::IcebergLiteError(
                    IcebergLiteError { kind: IcebergErrorKind::FeatureUnsupported, message },
                ),
            );
        }
        Ok(())
    }

    /// Sets the properties on metadata of the same format version; `refusal`
    /// is the table-format layer's objection to them, if it has one.
    pub fn apply_to_metadata(
        &self,
        metadata: TableMetadata,
        refusal: Option<IcebergLiteError>,
    ) -> (r: IcebergResult<TableMetadata>)
        ensures
            metadata.format_version != self.format_version ==> r is Err && version_refused(
                r->Err_0,
                metadata.format_version,
                self.format_version,
            ),
            metadata.format_version == self.format_version ==> (match refusal {
                Some(e) => r == Err::<TableMetadata, IcebergError>(IcebergError::IcebergLiteError(e)),
                None => r is Ok && r->Ok_0.properties@ == with_properties(
                    metadata.properties@,
                    self.properties@,
                ) && r->Ok_0.format_version == metadata.format_version && r->Ok_0.schema == metadata.schema
                    && r->Ok_0.current_snapshot == metadata.current_snapshot,
            }),
    {
        match self.validate_base_metadata(&metadata) {
            Ok(()) => {},
            Err(e) => {
                return Err(e);
            },
        }
        if let Some(e) = refusal {
            return Err(IcebergError::IcebergLiteError(e));
        }
        let mut updated = metadata;
        let mut i: usize = 0;
        assert(self.properties@.take(0) =~= Seq::<TableProperty>::empty());
        while i < self.properties.len()
            invariant
                i <= self.properties@.len(),
                updated.properties@ == with_properties(metadata.properties@, self.properties@.take(i as int)),
                updated.format_version == metadata.format_version,
                updated.schema == metadata.schema,
                updated.current_snapshot == metadata.current_snapshot,
            decreases self.properties@.len() - i,
        {
            let property = &self.properties[i];
            updated.properties.set(property.key.clone(), property.value.clone());
            proof {
                let next = self.properties@.take(i + 1);
                assert(next.drop_last() =~= self.properties@.take(i as int));
                assert(next.last() == self.properties@[i as int]);
            }
            i = i + 1;
        }
        assert(self.properties@.take(self.properties@.len() as int) =~= self.properties@);
        Ok(updated)
    }
}

/// A property that an update sets has the value of its last mention.
pub proof fn last_setting_wins(base: Map<Seq<char>, Seq<char>>, properties: Seq<TableProperty>, i: int)
    requires
        0 <= i < properties.len(),
        forall|j: int| i < j < properties.len() ==> (#[trigger] properties[j]).key@ != properties[i].key@,
    ensures
        with_properties(base, properties).contains_key(properties[i].key@),
        with_properties(base, properties)[properties[i].key@] == properties[i].value@,
    decreases properties.len(),
{
    if i < properties.len() - 1 {
        let shorter = properties.drop_last();
        assert forall|j: int| i < j < shorter.len() implies (#[trigger] shorter[j]).key@
            != shorter[i].key@ by {
            assert(properties[j].key@ != properties[i].key@);
        }
        last_setting_wins(base, shorter, i);
        assert(properties[properties.len() - 1].key@ != properties[i].key@);
    }
}

/// A property that an update does not mention keeps its value.
pub proof fn other_properties_stay(
    base: Map<Seq<char>, Seq<char>>,
    properties: Seq<TableProperty>,
    key: Seq<char>,
)
    requires
        forall|j: int| 0 <= j < properties.len() ==> (#[trigger] properties[j]).key@ != key,
    ensures
        with_properties(base, properties).contains_key(key) == base.contains_key(key),
        base.contains_key(key) ==> with_properties(base, properties)[key] == base[key],
    decreases properties.len(),
{
    if properties.len() > 0 {
        let shorter = properties.drop_last();
        assert forall|j: int| 0 <= j < shorter.len() implies (#[trigger] shorter[j]).key@ != key by {
            assert(properties[j].key@ != key);
        }
        other_properties_stay(base, shorter, key);
        assert(properties[properties.len() - 1].key@ != key);
    }
}

} // verus!
