//! Saving the world at intervals, driven by the actor's ticks.

use crate::world::{spec_decode_file, spec_encode_file, BlockWorld, WorldError, WorldModel};
use vstd::prelude::*;

verus! {

/// Number of seconds between two saves unless told otherwise.
pub const DEFAULT_SAVE_INTERVAL: u64 = 60;

/// Remembers when the world was last saved. Times are in seconds on a
/// clock that never runs backwards.
#[derive(Debug, Clone, Copy, PartialEq, Eq, Structural)]
pub struct WorldSaver {
    pub interval: u64,
    pub last_save: u64,
}

/// Whether a save is due at time `now`: at least `interval` seconds have
/// passed since the last one.
pub open spec fn spec_save_due(saver: WorldSaver, now: u64) -> bool {
    now >= saver.last_save && now - saver.last_save >= saver.interval
}

/// A saver that counts `interval` seconds from `now`.
pub fn add_periodic_saver(interval: u64, now: u64) -> (saver: WorldSaver)
    ensures
        saver == (WorldSaver { interval, last_save: now }),
{
    WorldSaver { interval, last_save: now }
}

/// One tick at time `now`. Where a save is due, the contents of the world
/// file come back and the saver takes `now` as the time of the last
/// save; where the world cannot be written, the reason comes back and
/// the save stays due. Else nothing changes and nothing comes back.
pub fn tick_handler(saver: &mut WorldSaver, world: &BlockWorld, now: u64) -> (file: Option<
    Result<Vec<u8>, WorldError>,
>)
    ensures
        final(saver).interval == old(saver).interval,
        final(saver).last_save == if file matches Some(Ok(_)) {
            now
        } else {
            old(saver).last_save
        },
        match file {
            None => !spec_save_due(*old(saver), now),
            Some(Ok(bytes)) => {
                &&& spec_save_due(*old(saver), now)
                &&& spec_encode_file(world@) == Ok::<Seq<u8>, WorldError>(bytes@)
                &&& spec_decode_file(bytes@) == Ok::<WorldModel, WorldError>(world@)
            },
            Some(Err(e)) => {
                &&& spec_save_due(*old(saver), now)
                &&& spec_encode_file(world@) == Err::<Seq<u8>, WorldError>(e)
            },
        },
{
    if now >= saver.last_save && now - saver.last_save >= saver.interval {
        let file = world.to_file_bytes();
        if file.is_ok() {
            saver.last_save = now;
        }
        Some(file)
    } else {
        None
    }
}

} // verus!
