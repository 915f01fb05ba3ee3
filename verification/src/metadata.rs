//! The reserved table in which a node keeps its own settings.

use vstd::prelude::*;
use vstd::utf8::encode_utf8;
use crate::api::METADATA_TABLE;
use crate::config::NodeConfig;
use crate::wal::test_store::{table_or_empty, TestStore};

verus! {

/// The metadata table after the settings of `config` are written to it.
pub open spec fn seeded(
    t: Map<Seq<char>, Seq<u8>>,
    config: &NodeConfig,
) -> Map<Seq<char>, Seq<u8>> {
    t.insert("node_id"@, encode_utf8(config.id@)).insert(
        "node_address"@,
        encode_utf8(config.node_address@),
    ).insert("anchor_address"@, encode_utf8(config.anchor_address@)).insert(
        "region"@,
        encode_utf8(config.region@),
    ).insert("status"@, encode_utf8(config.status@))
}

fn utf8_bytes(s: &String) -> (r: Vec<u8>)
    ensures
        r@ == encode_utf8(s@),
{
    vstd::slice::slice_to_vec(s.as_str().as_bytes())
}

/// Writes the node's settings into the reserved metadata table, creating
/// it when needed: `node_id`, `node_address`, `anchor_address`, `region`
/// and `status`, each as the UTF-8 bytes of the setting.
pub fn seed_metadata(store: &mut TestStore, config: &NodeConfig)
    requires
        old(store).wf(),
    ensures
        final(store).wf(),
        final(store)@ == old(store)@.insert(
            "__metadata"@,
            seeded(table_or_empty(old(store)@, "__metadata"@), config),
        ),
{
    let table = String::from_str(METADATA_TABLE);
    store.insert(&table, String::from_str("node_id"), utf8_bytes(&config.id));
    store.insert(&table, String::from_str("node_address"), utf8_bytes(&config.node_address));
    store.insert(&table, String::from_str("anchor_address"), utf8_bytes(&config.anchor_address));
    store.insert(&table, String::from_str("region"), utf8_bytes(&config.region));
    store.insert(&table, String::from_str("status"), utf8_bytes(&config.status));
    assert(final(store)@ =~= old(store)@.insert(
        "__metadata"@,
        seeded(table_or_empty(old(store)@, "__metadata"@), config),
    ));
}

} // verus!
