//! Where the files of a table are.

use vstd::prelude::*;

use crate::Oid;
use crate::error::{IcebergError, IcebergResult};
use crate::text::{decimal, decimal_text, is_digit, lemma_decimal_digits, lemma_decimal_injective};

verus! {

/// The tablespace of databases that name no other.
pub const DEFAULTTABLESPACE_OID: Oid = 1663;

/// The tablespace of relations that all databases share.
pub const GLOBALTABLESPACE_OID: Oid = 1664;

/// What places a relation in storage.
#[derive(Debug, Clone, Copy, PartialEq, Eq, Structural)]
pub struct TableLocator {
    pub spc_oid: Oid,
    pub db_oid: Oid,
    pub rel_number: u32,
}

/// A text without the slashes at its end.
pub open spec fn without_trailing_slashes(text: Seq<char>) -> Seq<char>
    decreases text.len(),
{
    if text.len() > 0 && text.last() == '/' {
        without_trailing_slashes(text.drop_last())
    } else {
        text
    }
}

/// The key of a table in an object store, below the store's base.
pub open spec fn table_key(locator: TableLocator) -> Seq<char> {
    decimal(locator.spc_oid as nat) + "/"@ + (decimal(locator.db_oid as nat) + "/"@ + (decimal(
        locator.rel_number as nat,
    ) + "_iceberg"@))
}

/// The directory of a table on the server's own disk.
pub open spec fn local_directory(locator: TableLocator, version_directory: Seq<char>) -> Seq<char> {
    let name = decimal(locator.rel_number as nat) + "_iceberg"@;
    if locator.spc_oid == DEFAULTTABLESPACE_OID {
        "base/"@ + (decimal(locator.db_oid as nat) + "/"@ + name)
    } else if locator.spc_oid == GLOBALTABLESPACE_OID {
        "global/"@ + name
    } else {
        "pg_tblspc/"@ + (decimal(locator.spc_oid as nat) + "/"@ + (version_directory + "/"@ + (
        decimal(locator.db_oid as nat) + "/"@ + name)))
    }
}

/// The place of a table's files.
pub open spec fn table_location(
    locator: TableLocator,
    base_path: Seq<char>,
    is_distributed: bool,
    version_directory: Seq<char>,
) -> Seq<char> {
    if is_distributed {
        without_trailing_slashes(base_path) + "/"@ + table_key(locator)
    } else {
        local_directory(locator, version_directory)
    }
}

fn trim_trailing_slashes(text: &str) -> (r: String)
    ensures
        r@ == without_trailing_slashes(text@),
{
    let length: usize = text.unicode_len();
    let mut end: usize = length;
    assert(text@.take(length as int) =~= text@);
    while end > 0 && text.get_char(end - 1) == '/'
        invariant
            end <= length,
            length == text@.len(),
            without_trailing_slashes(text@) == without_trailing_slashes(text@.take(end as int)),
        decreases end,
    {
        assert(text@.take(end as int).last() == text@[end - 1]);
        assert(text@.take(end as int).drop_last() =~= text@.take(end - 1));
        end = end - 1;
    }
    proof {
        let kept = text@.take(end as int);
        assert(end > 0 ==> kept.last() == text@[end - 1]);
        assert(text@.subrange(0, end as int) =~= kept);
    }
    text.substring_char(0, end).to_owned()
}

fn append_number(text: &mut String, n: u32)
    ensures
        final(text)@ == old(text)@ + decimal(n as nat),
{
    let number = decimal_text(n as u64);
    text.append(number.as_str());
}

/// The key of a table in an object store, below the store's base.
pub fn distributed_table_key(locator: TableLocator) -> (r: String)
    ensures
        r@ == table_key(locator),
{
    let mut key = decimal_text(locator.spc_oid as u64);
    key.append("/");
    append_number(&mut key, locator.db_oid);
    key.append("/");
    append_number(&mut key, locator.rel_number);
    key.append("_iceberg");
    assert(key@ =~= table_key(locator));
    key
}

/// The place of a table's files: a key below the base path of an object store,
/// or a directory next to the server's own files of the relation.
pub fn compute_table_location(
    locator: TableLocator,
    base_path: &str,
    is_distributed: bool,
    version_directory: &str,
) -> (r: String)
    ensures
        r@ == table_location(locator, base_path@, is_distributed, version_directory@),
{
    if is_distributed {
        let mut location = trim_trailing_slashes(base_path);
        location.append("/");
        let key = distributed_table_key(locator);
        location.append(key.as_str());
        return location;
    }
    let mut location = String::new();
    if locator.spc_oid == DEFAULTTABLESPACE_OID {
        location.append("base/");
        append_number(&mut location, locator.db_oid);
        location.append("/");
    } else if locator.spc_oid == GLOBALTABLESPACE_OID {
        location.append("global/");
    } else {
        location.append("pg_tblspc/");
        append_number(&mut location, locator.spc_oid);
        location.append("/");
        location.append(version_directory);
        location.append("/");
        append_number(&mut location, locator.db_oid);
        location.append("/");
    }
    append_number(&mut location, locator.rel_number);
    location.append("_iceberg");
    assert(location@ =~= local_directory(locator, version_directory@));
    location
}

/// The name of the directory that one version of the server uses inside a
/// tablespace.
pub fn tablespace_version_directory(major: &str, catalog_version: u32) -> (r: String)
    ensures
        r@ == "PG_"@ + major@ + "_"@ + decimal(catalog_version as nat),
{
    let mut directory = "PG_".to_owned();
    directory.append(major);
    directory.append("_");
    append_number(&mut directory, catalog_version);
    directory
}

/// Where the first metadata of a new table is; it must have been written.
pub fn initial_metadata_location(written: Option<String>) -> (r: IcebergResult<String>)
    ensures
        match r {
            Ok(location) => written is Some && location@ == written->Some_0@,
            Err(e) => written is None && e == IcebergError::MetadataLocationNull,
        },
{
    match written {
        Some(location) => Ok(location),
        None => Err(IcebergError::MetadataLocationNull),
    }
}

// -- Laws ---------------------------------------------------------------------

/// Whether every character of a text is a decimal digit.
spec fn digits(text: Seq<char>) -> bool {
    forall|i: int| 0 <= i < text.len() ==> is_digit(#[trigger] text[i])
}

/// Two numerals that something else than a digit follows can be told apart.
proof fn lemma_split(a: nat, b: nat, x: Seq<char>, y: Seq<char>)
    requires
        x.len() > 0,
        y.len() > 0,
        !is_digit(x[0]),
        !is_digit(y[0]),
        decimal(a) + x == decimal(b) + y,
    ensures
        a == b,
        x == y,
{
    let p = decimal(a);
    let q = decimal(b);
    lemma_decimal_digits(a);
    lemma_decimal_digits(b);
    let whole = p + x;
    let other = q + y;
    if p.len() < q.len() {
        assert(whole[p.len() as int] == x[0]);
        assert(other[p.len() as int] == q[p.len() as int]);
    }
    if q.len() < p.len() {
        assert(other[q.len() as int] == y[0]);
        assert(whole[q.len() as int] == p[q.len() as int]);
    }
    assert forall|i: int| 0 <= i < p.len() implies p[i] == q[i] by {
        assert(whole[i] == other[i]);
    }
    assert(p =~= q);
    lemma_decimal_injective(a, b);
    assert(x =~= whole.skip(p.len() as int));
    assert(y =~= other.skip(q.len() as int));
}

proof fn lemma_drop_prefix(prefix: Seq<char>, x: Seq<char>, y: Seq<char>)
    requires
        prefix + x == prefix + y,
    ensures
        x == y,
{
    let whole = prefix + x;
    let other = prefix + y;
    assert(whole.len() == other.len());
    assert forall|i: int| 0 <= i < x.len() implies x[i] == y[i] by {
        assert(whole[prefix.len() + i] == other[prefix.len() + i]);
    }
    assert(x =~= y);
}

proof fn lemma_numeral_then(n: nat, separator: Seq<char>, rest: Seq<char>)
    ensures
        decimal(n) + separator + rest == decimal(n) + (separator + rest),
{
    assert(decimal(n) + separator + rest =~= decimal(n) + (separator + rest));
}

/// Different relations have different keys in an object store, across
/// databases and tablespaces.
pub proof fn object_keys_are_distinct(a: TableLocator, b: TableLocator)
    requires
        table_key(a) == table_key(b),
    ensures
        a == b,
{
    reveal_strlit("/");
    reveal_strlit("_iceberg");
    let a_name = decimal(a.rel_number as nat) + "_iceberg"@;
    let b_name = decimal(b.rel_number as nat) + "_iceberg"@;
    let a_rest = decimal(a.db_oid as nat) + "/"@ + a_name;
    let b_rest = decimal(b.db_oid as nat) + "/"@ + b_name;
    lemma_numeral_then(a.spc_oid as nat, "/"@, a_rest);
    lemma_numeral_then(b.spc_oid as nat, "/"@, b_rest);
    lemma_split(a.spc_oid as nat, b.spc_oid as nat, "/"@ + a_rest, "/"@ + b_rest);
    lemma_drop_prefix("/"@, a_rest, b_rest);
    lemma_rest_distinct(a, b);
}

proof fn lemma_rest_distinct(a: TableLocator, b: TableLocator)
    requires
        decimal(a.db_oid as nat) + "/"@ + (decimal(a.rel_number as nat) + "_iceberg"@) == decimal(
            b.db_oid as nat,
        ) + "/"@ + (decimal(b.rel_number as nat) + "_iceberg"@),
    ensures
        a.db_oid == b.db_oid,
        a.rel_number == b.rel_number,
{
    reveal_strlit("/");
    reveal_strlit("_iceberg");
    let a_name = decimal(a.rel_number as nat) + "_iceberg"@;
    let b_name = decimal(b.rel_number as nat) + "_iceberg"@;
    lemma_numeral_then(a.db_oid as nat, "/"@, a_name);
    lemma_numeral_then(b.db_oid as nat, "/"@, b_name);
    lemma_split(a.db_oid as nat, b.db_oid as nat, "/"@ + a_name, "/"@ + b_name);
    lemma_drop_prefix("/"@, a_name, b_name);
    lemma_split(a.rel_number as nat, b.rel_number as nat, "_iceberg"@, "_iceberg"@);
}

/// Different relations have different places below the same base path of an
/// object store.
pub proof fn distributed_locations_are_distinct(
    a: TableLocator,
    b: TableLocator,
    base_path: Seq<char>,
    version_directory: Seq<char>,
)
    requires
        table_location(a, base_path, true, version_directory) == table_location(
            b,
            base_path,
            true,
            version_directory,
        ),
    ensures
        a == b,
{
    let base = without_trailing_slashes(base_path) + "/"@;
    lemma_drop_prefix(base, table_key(a), table_key(b));
    object_keys_are_distinct(a, b);
}

/// Different relations have different directories on the server's own disk. In
/// the tablespace that all databases share, the database does not tell them
/// apart.
pub proof fn local_directories_are_distinct(
    a: TableLocator,
    b: TableLocator,
    base_path: Seq<char>,
    version_directory: Seq<char>,
)
    requires
        table_location(a, base_path, false, version_directory) == table_location(
            b,
            base_path,
            false,
            version_directory,
        ),
    ensures
        a.spc_oid == b.spc_oid,
        a.rel_number == b.rel_number,
        a.spc_oid != GLOBALTABLESPACE_OID ==> a == b,
{
    reveal_strlit("/");
    reveal_strlit("_iceberg");
    reveal_strlit("base/");
    reveal_strlit("global/");
    reveal_strlit("pg_tblspc/");
    let x = local_directory(a, version_directory);
    let y = local_directory(b, version_directory);
    assert(x[0] == y[0]);
    let a_name = decimal(a.rel_number as nat) + "_iceberg"@;
    let b_name = decimal(b.rel_number as nat) + "_iceberg"@;
    let a_rest = decimal(a.db_oid as nat) + "/"@ + a_name;
    let b_rest = decimal(b.db_oid as nat) + "/"@ + b_name;
    if a.spc_oid == DEFAULTTABLESPACE_OID {
        assert(x[0] == 'b');
        assert(b.spc_oid == DEFAULTTABLESPACE_OID);
        lemma_drop_prefix("base/"@, a_rest, b_rest);
        lemma_rest_distinct(a, b);
    } else if a.spc_oid == GLOBALTABLESPACE_OID {
        assert(x[0] == 'g');
        assert(b.spc_oid == GLOBALTABLESPACE_OID);
        lemma_drop_prefix("global/"@, a_name, b_name);
        lemma_split(a.rel_number as nat, b.rel_number as nat, "_iceberg"@, "_iceberg"@);
    } else {
        assert(x[0] == 'p');
        assert(b.spc_oid != DEFAULTTABLESPACE_OID && b.spc_oid != GLOBALTABLESPACE_OID);
        let a_inner = version_directory + "/"@ + a_rest;
        let b_inner = version_directory + "/"@ + b_rest;
        let a_tail = decimal(a.spc_oid as nat) + "/"@ + a_inner;
        let b_tail = decimal(b.spc_oid as nat) + "/"@ + b_inner;
        lemma_drop_prefix("pg_tblspc/"@, a_tail, b_tail);
        lemma_numeral_then(a.spc_oid as nat, "/"@, a_inner);
        lemma_numeral_then(b.spc_oid as nat, "/"@, b_inner);
        lemma_split(a.spc_oid as nat, b.spc_oid as nat, "/"@ + a_inner, "/"@ + b_inner);
        lemma_drop_prefix("/"@, a_inner, b_inner);
        lemma_drop_prefix(version_directory + "/"@, a_rest, b_rest);
        lemma_rest_distinct(a, b);
    }
}

/// Only slashes at the end are left away, and all of them.
pub proof fn only_trailing_slashes_go(text: Seq<char>)
    ensures
        without_trailing_slashes(text).is_prefix_of(text),
        without_trailing_slashes(text).len() > 0 ==> without_trailing_slashes(text).last() != '/',
        forall|i: int|
            without_trailing_slashes(text).len() <= i < text.len() ==> #[trigger] text[i] == '/',
    decreases text.len(),
{
    if text.len() > 0 && text.last() == '/' {
        only_trailing_slashes_go(text.drop_last());
        let kept = without_trailing_slashes(text);
        assert forall|i: int| kept.len() <= i < text.len() implies #[trigger] text[i] == '/' by {
            if i < text.len() - 1 {
                assert(text.drop_last()[i] == text[i]);
            }
        }
    }
}

/// The files of a table in an object store lie below the store's base path, at
/// the table's key; those of a table on the server's own disk do not depend on
/// any object store.
pub proof fn tables_lie_below_their_base(
    locator: TableLocator,
    base_path: Seq<char>,
    other_base: Seq<char>,
    version_directory: Seq<char>,
)
    ensures
        ({
            let place = table_location(locator, base_path, true, version_directory);
            let base = without_trailing_slashes(base_path);
            &&& base.is_prefix_of(place)
            &&& place.skip(base.len() as int) == "/"@ + table_key(locator)
        }),
        table_location(locator, base_path, false, version_directory) == table_location(
            locator,
            other_base,
            false,
            version_directory,
        ),
{
    let place = table_location(locator, base_path, true, version_directory);
    let base = without_trailing_slashes(base_path);
    assert(place.take(base.len() as int) =~= base);
    assert(place.skip(base.len() as int) =~= "/"@ + table_key(locator));
}

} // verus!
