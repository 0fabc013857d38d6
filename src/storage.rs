//! The registry of running bots: at most one live connection per channel.
//!
//! Each running bot is known by a handle; the registry maps a channel's name
//! to the handle of the bot connected to it.

use vstd::prelude::*;
use dashmap::DashMap;
use crate::error::TwitchError;

verus! {

#[verifier::external_type_specification]
#[verifier::external_body]
#[verifier::reject_recursive_types(K)]
#[verifier::reject_recursive_types(V)]
#[verifier::reject_recursive_types(S)]
pub struct ExDashMap<K, V, S>(DashMap<K, V, S>);

/// A concurrent map from channel names to bot handles.
pub type BotMap = DashMap<String, u64>;

/// The entries of a map from channel names to bot handles.
pub uninterp spec fn bot_entries(m: BotMap) -> Map<Seq<char>, u64>;

/// The registry with no entry.
pub open spec fn no_bots() -> Map<Seq<char>, u64> {
    Map::empty()
}

/// Relies on `DashMap::new`: the new map is empty.
#[verifier::external_body]
fn map_new() -> (r: BotMap)
    ensures
        bot_entries(r) == no_bots(),
{
    DashMap::new()
}

/// Relies on `DashMap::contains_key`: whether the key has an entry.
#[verifier::external_body]
fn map_contains(m: &BotMap, key: &str) -> (r: bool)
    ensures
        r == bot_entries(*m).contains_key(key@),
{
    m.contains_key(key)
}

/// Relies on `DashMap::get`: the value of the key's entry, if any.
#[verifier::external_body]
fn map_get(m: &BotMap, key: &str) -> (r: Option<u64>)
    ensures
        match r {
            Some(v) => bot_entries(*m).contains_key(key@) && bot_entries(*m)[key@] == v,
            None => !bot_entries(*m).contains_key(key@),
        },
{
    m.get(key).map(|e| *e.value())
}

/// Relies on `DashMap::insert`: the key's entry is set, the others are kept.
#[verifier::external_body]
fn map_insert(m: &mut BotMap, key: String, value: u64)
    ensures
        bot_entries(*final(m)) == bot_entries(*old(m)).insert(key@, value),
{
    m.insert(key, value);
}

/// Relies on `DashMap::remove`: the key's entry goes, the others are kept.
#[verifier::external_body]
fn map_remove(m: &mut BotMap, key: &str)
    ensures
        bot_entries(*final(m)) == bot_entries(*old(m)).remove(key@),
{
    m.remove(key);
}

/// Channel names mapped to the handles of the bots connected to them.
pub struct BotStorage {
    bots: BotMap,
}

impl View for BotStorage {
    type V = Map<Seq<char>, u64>;

    closed spec fn view(&self) -> Map<Seq<char>, u64> {
        bot_entries(self.bots)
    }
}

impl BotStorage {
    /// An empty registry.
    pub fn new() -> (r: BotStorage)
        ensures
            r@ == no_bots(),
    {
        BotStorage { bots: map_new() }
    }
}

/// Registers the bot `bot` for `channel`. A channel that already has a bot
/// keeps it: the call is refused with `RegistryConflict` and nothing changes.
pub fn add_bot(storage: &mut BotStorage, channel: String, bot: u64) -> (r: Result<(), TwitchError>)
    ensures
        old(storage)@.contains_key(channel@) ==> r == Err::<(), TwitchError>(
            TwitchError::RegistryConflict,
        ) && final(storage)@ == old(storage)@,
        !old(storage)@.contains_key(channel@) ==> r is Ok && final(storage)@ == old(storage)@.insert(
            channel@,
            bot,
        ),
{
    if map_contains(&storage.bots, channel.as_str()) {
        return Err(TwitchError::RegistryConflict);
    }
    map_insert(&mut storage.bots, channel, bot);
    Ok(())
}

/// The handle of the bot registered for `channel`, if any.
pub fn get_bot(storage: &BotStorage, channel: &str) -> (r: Option<u64>)
    ensures
        match r {
            Some(b) => storage@.contains_key(channel@) && storage@[channel@] == b,
            None => !storage@.contains_key(channel@),
        },
{
    map_get(&storage.bots, channel)
}

/// Forgets the bot registered for `channel`; removing an absent channel does
/// nothing.
pub fn remove_bot(storage: &mut BotStorage, channel: &str)
    ensures
        final(storage)@ == old(storage)@.remove(channel@),
        !old(storage)@.contains_key(channel@) ==> final(storage)@ == old(storage)@,
{
    map_remove(&mut storage.bots, channel);
    proof {
        if !old(storage)@.contains_key(channel@) {
            assert(old(storage)@.remove(channel@) =~= old(storage)@);
        }
    }
}

} // verus!
