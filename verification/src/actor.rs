//! The world actor: the one owner of the world's state. It takes events
//! one at a time and answers each with the packets to send.

use crate::block::Block;
use crate::event::{
    PeerAddr, PlayerDisconnectEvent, PlayerJoinEvent, PlayerMessageEvent, PlayerMoveEvent,
    SetBlockEvent,
};
use crate::networking::c2s::{
    spec_coordinate, MessagePacket as ClientMessagePacket, PlayerIdentPacket, PositionPacket,
    SetBlockPacket as ClientSetBlockPacket,
};
use crate::networking::client_packet::ClientPacket;
use crate::networking::level::{
    send_world, spec_chunk_count, spec_is_chunk, spec_is_level_transfer,
};
use crate::networking::movement::{player_move_packet, spec_move_packet};
use crate::networking::s2c::{
    DespawnPlayerPacket, DisconnectPlayerPacket, MessagePacket, PlayerTeleportPacket,
    ServerIdentPacket, SetBlockPacket, SpawnPlayerPacket,
};
use crate::networking::server_packet::ServerPacket;
use crate::networking::string::{spec_clip, spec_pad, spec_trim, utf8_lossy, PacketString};
use crate::player::{
    spec_distinct, spec_holds, Player, PlayerId, PlayerIdAllocator, Position, Rotation,
    SessionHandle, MAX_PLAYERS, SELF_ID,
};
use crate::world::{
    spec_header_fits, spec_index, spec_serialise, BlockWorld, Coords, WorldModel,
};
use vstd::prelude::*;
use vstd::utf8::encode_utf8;

verus! {

/// Number of blocks a player must move at once for the move to be sent as
/// a teleport.
pub const TELEPORT_THRESHOLD: u16 = 3;

/// The protocol version that the server announces.
pub const SERVER_PROTOCOL_VERSION: u8 = 7;

/// The user type that the server announces to every player.
pub const USER_TYPE: u8 = 0x64;

/// The name under which the server identifies itself to clients.
pub const SERVER_NAME: &'static str = "vintage";

/// The server's message of the day.
pub const SERVER_MOTD: &'static str = "Vintage server";

/// Why a client is turned away when every player identifier is taken.
pub const REASON_SERVER_FULL: &'static str = "Server is full";

/// Why a client is turned away when the level cannot be sent.
pub const REASON_NO_LEVEL: &'static str = "Level unavailable";

/// What the world keeps of a client's connection.
#[derive(Debug, Clone, Copy, PartialEq, Eq, Structural)]
pub struct ClientConnection {
    pub addr: PeerAddr,
}

/// Where new players appear, and how they look around.
#[derive(Debug, Clone, Copy, PartialEq, Eq, Structural)]
pub struct PlayerSpawnLocation {
    pub position: Position,
    pub pitch: u8,
    pub yaw: u8,
}

/// What a session task tells the actor of itself with every packet: its
/// address, and the handle under which it has joined, if it has.
#[derive(Debug, Clone, Copy, PartialEq, Eq, Structural)]
pub struct ClientInfo {
    pub addr: PeerAddr,
    pub player_id: Option<SessionHandle>,
}

/// One thing for the server to do in answer to an event.
#[derive(Debug, Clone, Copy)]
pub enum Action {
    /// Queue the packet for the session with this handle.
    Unicast(SessionHandle, ServerPacket),
    /// Send the packet to every connection through the broadcast channel.
    Broadcast(ServerPacket),
    /// Queue the packet for the connection that the event came from.
    Reply(ServerPacket),
    /// Close the connection that the event came from.
    CloseConnection,
}

/// A joined session: its connection and the player's records.
#[derive(Debug)]
pub struct Session {
    pub handle: SessionHandle,
    pub connection: ClientConnection,
    pub player: Player,
    pub position: Position,
    pub rotation: Rotation,
}

/// What a session is, with the player's name as text.
pub struct SessionModel {
    pub handle: SessionHandle,
    pub addr: PeerAddr,
    pub id: PlayerId,
    pub name: Seq<char>,
    pub position: Position,
    pub rotation: Rotation,
}

impl View for Session {
    type V = SessionModel;

    open spec fn view(&self) -> SessionModel {
        SessionModel {
            handle: self.handle,
            addr: self.connection.addr,
            id: self.player.id,
            name: self.player.name@,
            position: self.position,
            rotation: self.rotation,
        }
    }
}

impl Session {
    /// A second record of the same session.
    fn duplicate(&self) -> (copy: Session)
        ensures
            copy@ == self@,
    {
        Session {
            handle: self.handle,
            connection: self.connection,
            player: Player { name: self.player.name.clone(), id: self.player.id },
            position: self.position,
            rotation: self.rotation,
        }
    }
}

/// What the world actor holds.
pub struct ActorModel {
    pub world: WorldModel,
    pub ids: Seq<Option<SessionHandle>>,
    pub sessions: Seq<SessionModel>,
    pub next_handle: SessionHandle,
    pub spawn: PlayerSpawnLocation,
}

/// The owner of the block world, the table of player identifiers and the
/// records of every joined session.
#[derive(Debug)]
pub struct WorldActor {
    world: BlockWorld,
    ids: PlayerIdAllocator,
    sessions: Vec<Session>,
    next_handle: SessionHandle,
    spawn: PlayerSpawnLocation,
}

impl View for WorldActor {
    type V = ActorModel;

    closed spec fn view(&self) -> ActorModel {
        ActorModel {
            world: self.world@,
            ids: self.ids@,
            sessions: self.sessions@.map_values(|s: Session| s@),
            next_handle: self.next_handle,
            spawn: self.spawn,
        }
    }
}

/// The string field for the text `name`: its first 64 bytes, padded.
pub open spec fn spec_name_field(name: Seq<char>) -> Seq<u8> {
    spec_pad(spec_clip(encode_utf8(name)))
}

/// The string field for the chat line in which `name` says `message`.
pub open spec fn spec_chat_field(name: Seq<char>, message: Seq<char>) -> Seq<u8> {
    spec_pad(spec_clip(encode_utf8(name) + encode_utf8(": "@) + encode_utf8(message)))
}

/// A coordinate of the world as the signed 16-bit field of a packet: its
/// low sixteen bits.
pub open spec fn spec_short(value: u32) -> i16 {
    let low = value as int % 0x1_0000;
    if low < 0x8000 {
        low as i16
    } else {
        (low - 0x1_0000) as i16
    }
}

/// Where in `sessions` the session with handle `handle` stands, if it is
/// there: the first place that holds it.
pub open spec fn spec_is_index_of(sessions: Seq<SessionModel>, handle: SessionHandle, k: int)
    -> bool {
    &&& 0 <= k < sessions.len()
    &&& sessions[k].handle == handle
    &&& forall|j: int| 0 <= j < k ==> sessions[j].handle != handle
}

/// Whether some session in `sessions` has handle `handle`.
pub open spec fn spec_has_session(sessions: Seq<SessionModel>, handle: SessionHandle) -> bool {
    exists|k: int| 0 <= k < sessions.len() && sessions[k].handle == handle
}

/// `packet` queued for each of the first `n` sessions but the one at
/// `except`, in their order.
pub open spec fn spec_fan_out(
    sessions: Seq<SessionModel>,
    except: int,
    packet: ServerPacket,
    n: nat,
) -> Seq<Action>
    decreases n,
{
    if n == 0 {
        Seq::empty()
    } else {
        let before = spec_fan_out(sessions, except, packet, (n - 1) as nat);
        if n - 1 == except {
            before
        } else {
            before.push(Action::Unicast(sessions[n - 1].handle, packet))
        }
    }
}

/// Whether `after` and `actions` are what the move `event` of the session
/// at place `k` of `before` leads to: the session's records hold the new
/// position and orientation, and every other session is sent the packet
/// that tells of the change, if one is needed.
pub open spec fn spec_moved(
    before: Seq<SessionModel>,
    event: PlayerMoveEvent,
    k: int,
    after: Seq<SessionModel>,
    actions: Seq<Action>,
) -> bool {
    let mover = before[k];
    &&& after == before.update(
        k,
        SessionModel { position: event.pos, rotation: event.rot, ..mover },
    )
    &&& actions == match spec_move_packet(
        mover.position,
        event.pos,
        mover.rotation,
        event.rot,
        TELEPORT_THRESHOLD,
        mover.id,
    ) {
        Some(packet) => spec_fan_out(before, k, packet, before.len()),
        None => Seq::empty(),
    }
}

/// Whether `actions` is what a chat line `message` of `speaker` leads to:
/// one broadcast of the line under the speaker's identifier.
pub open spec fn spec_said(speaker: SessionModel, message: Seq<char>, actions: Seq<Action>)
    -> bool {
    &&& actions.len() == 1
    &&& actions[0] matches Action::Broadcast(ServerPacket::Message(line))
    &&& line.player_id == speaker.id
    &&& line.message@ == spec_chat_field(speaker.name, message)
}

/// Whether `packet` shows the player `id` named `name` at `position`,
/// looking as `rotation` says.
pub open spec fn spec_is_spawn(
    packet: ServerPacket,
    id: PlayerId,
    name: Seq<char>,
    position: Position,
    rotation: Rotation,
) -> bool {
    &&& packet matches ServerPacket::SpawnPlayer(spawn)
    &&& spawn.player_id == id
    &&& spawn.player_name@ == spec_name_field(name)
    &&& spawn.x == position.x
    &&& spawn.y == position.y
    &&& spawn.z == position.z
    &&& spawn.yaw == rotation.yaw
    &&& spawn.pitch == rotation.pitch
}

/// Whether `packet` is the server's identification.
pub open spec fn spec_is_server_ident(packet: ServerPacket) -> bool {
    &&& packet matches ServerPacket::ServerIdent(ident)
    &&& ident.protocol_version == SERVER_PROTOCOL_VERSION
    &&& ident.server_name@ == spec_name_field(SERVER_NAME@)
    &&& ident.server_motd@ == spec_name_field(SERVER_MOTD@)
    &&& ident.user_type == USER_TYPE
}

/// Whether `actions` turns the sender away: a disconnect packet with the
/// reason `reason`, and the closing of the connection.
pub open spec fn spec_is_refusal(actions: Seq<Action>, reason: Seq<char>) -> bool {
    &&& actions.len() == 2
    &&& actions[0] matches Action::Reply(ServerPacket::DisconnectPlayer(disconnect))
    &&& disconnect.disconnect_reason@ == spec_name_field(reason)
    &&& actions[1] is CloseConnection
}

/// Whether `id` is the lowest identifier that `ids` has free.
pub open spec fn spec_lowest_free(ids: Seq<Option<SessionHandle>>, id: int) -> bool {
    &&& 0 <= id < ids.len()
    &&& ids[id] is None
    &&& forall|j: int| 0 <= j < id ==> ids[j] is Some
}

/// Whether `ids` has no identifier free.
pub open spec fn spec_all_taken(ids: Seq<Option<SessionHandle>>) -> bool {
    forall|j: int| 0 <= j < ids.len() ==> ids[j] is Some
}

/// The packet that `action` queues for the session `handle`, if that is
/// what `action` does.
pub open spec fn spec_unicast_to(action: Action, handle: SessionHandle) -> Option<ServerPacket> {
    match action {
        Action::Unicast(to, packet) => if to == handle {
            Some(packet)
        } else {
            None
        },
        _ => None,
    }
}

/// Whether `action` queues a spawn of `shown` for the session `handle`,
/// under the identifier `id`.
pub open spec fn spec_sends_spawn(
    action: Action,
    handle: SessionHandle,
    id: PlayerId,
    shown: SessionModel,
) -> bool {
    match spec_unicast_to(action, handle) {
        Some(packet) => spec_is_spawn(packet, id, shown.name, shown.position, shown.rotation),
        None => false,
    }
}

/// Whether `action` queues chunk `i` of the level bytes `level` for the
/// session `handle`.
pub open spec fn spec_sends_chunk(action: Action, handle: SessionHandle, level: Seq<u8>, i: int)
    -> bool {
    match spec_unicast_to(action, handle) {
        Some(packet) => spec_is_chunk(packet, level, i),
        None => false,
    }
}

/// Whether `action` queues the packet that closes a level of dimensions
/// `dims` for the session `handle`.
pub open spec fn spec_sends_finalise(action: Action, handle: SessionHandle, dims: Coords) -> bool {
    match spec_unicast_to(action, handle) {
        Some(ServerPacket::LevelFinalise(done)) => done.x_size == dims.x && done.y_size == dims.y
            && done.z_size == dims.z,
        _ => false,
    }
}

/// Whether `action` queues the server's identification for the session
/// `handle`.
pub open spec fn spec_sends_ident(action: Action, handle: SessionHandle) -> bool {
    match spec_unicast_to(action, handle) {
        Some(packet) => spec_is_server_ident(packet),
        None => false,
    }
}

/// Whether `action` broadcasts a spawn of `shown` under its own identifier.
pub open spec fn spec_broadcasts_spawn(action: Action, shown: SessionModel) -> bool {
    match action {
        Action::Broadcast(packet) => spec_is_spawn(
            packet,
            shown.id,
            shown.name,
            shown.position,
            shown.rotation,
        ),
        _ => false,
    }
}

/// The teleport that puts a newcomer at `position`, looking as
/// `rotation` says.
pub open spec fn spec_spawn_teleport(position: Position, rotation: Rotation) -> ServerPacket {
    ServerPacket::PlayerTeleport(
        PlayerTeleportPacket {
            player_id: SELF_ID,
            x: position.x,
            y: position.y,
            z: position.z,
            yaw: rotation.yaw,
            pitch: rotation.pitch,
        },
    )
}

/// Whether `actions` is what the newcomer `joiner` and everybody else is
/// sent when it joins a world with level bytes `level`, dimensions
/// `dims` and the sessions `others`.
///
/// All but the last go to the newcomer, in this order: the server's
/// identification; the level, announced, in chunks and closed with the
/// dimensions; a teleport to the spawn location and the newcomer's own
/// spawn, both under identifier `-1`; the spawn of every session that
/// joined before. The last is the broadcast of the newcomer's spawn
/// under its own identifier.
pub open spec fn spec_join_actions(
    actions: Seq<Action>,
    joiner: SessionModel,
    level: Seq<u8>,
    dims: Coords,
    others: Seq<SessionModel>,
) -> bool {
    let chunks = spec_chunk_count(level.len() as int);
    let handle = joiner.handle;
    &&& actions.len() == chunks + others.len() + 6
    &&& spec_sends_ident(actions[0], handle)
    &&& spec_unicast_to(actions[1], handle) matches Some(ServerPacket::LevelInit(_))
    &&& forall|i: int|
        0 <= i < chunks ==> spec_sends_chunk(#[trigger] actions[2 + i], handle, level, i)
    &&& spec_sends_finalise(actions[chunks + 2], handle, dims)
    &&& actions[chunks + 3] == Action::Unicast(
        handle,
        spec_spawn_teleport(joiner.position, joiner.rotation),
    )
    &&& spec_sends_spawn(actions[chunks + 4], handle, SELF_ID, joiner)
    &&& forall|j: int|
        0 <= j < others.len() ==> spec_sends_spawn(
            #[trigger] actions[chunks + 5 + j],
            handle,
            others[j].id,
            others[j],
        )
    &&& spec_broadcasts_spawn(actions[chunks + others.len() + 5], joiner)
}

/// The sessions among the first `n` of `sessions` that are not connected
/// from `addr`, in their order.
pub open spec fn spec_survivors(sessions: Seq<SessionModel>, addr: PeerAddr, n: nat) -> Seq<
    SessionModel,
>
    decreases n,
{
    if n == 0 {
        Seq::empty()
    } else {
        let before = spec_survivors(sessions, addr, (n - 1) as nat);
        if sessions[n - 1].addr == addr {
            before
        } else {
            before.push(sessions[n - 1])
        }
    }
}

/// The table `ids` after the identifier of every session among the first
/// `n` of `sessions` that is connected from `addr` was freed.
pub open spec fn spec_freed(
    ids: Seq<Option<SessionHandle>>,
    sessions: Seq<SessionModel>,
    addr: PeerAddr,
    n: nat,
) -> Seq<Option<SessionHandle>>
    decreases n,
{
    if n == 0 {
        ids
    } else {
        let before = spec_freed(ids, sessions, addr, (n - 1) as nat);
        if sessions[n - 1].addr == addr {
            before.update(sessions[n - 1].id as int, None)
        } else {
            before
        }
    }
}

/// The despawn of the player `id`, queued for each of the first `m`
/// sessions that is not connected from `addr`, in their order.
pub open spec fn spec_despawn_row(
    sessions: Seq<SessionModel>,
    addr: PeerAddr,
    id: PlayerId,
    m: nat,
) -> Seq<Action>
    decreases m,
{
    if m == 0 {
        Seq::empty()
    } else {
        let before = spec_despawn_row(sessions, addr, id, (m - 1) as nat);
        if sessions[m - 1].addr == addr {
            before
        } else {
            before.push(
                Action::Unicast(
                    sessions[m - 1].handle,
                    ServerPacket::DespawnPlayer(DespawnPlayerPacket { player_id: id }),
                ),
            )
        }
    }
}

/// What is sent when the connection from `addr` is gone: for each of the
/// first `n` sessions that is connected from `addr`, in their order, the
/// despawn of its player, queued for every session that stays.
pub open spec fn spec_despawns(sessions: Seq<SessionModel>, addr: PeerAddr, n: nat) -> Seq<Action>
    decreases n,
{
    if n == 0 {
        Seq::empty()
    } else {
        let before = spec_despawns(sessions, addr, (n - 1) as nat);
        if sessions[n - 1].addr == addr {
            before + spec_despawn_row(sessions, addr, sessions[n - 1].id, sessions.len())
        } else {
            before
        }
    }
}

/// Whether a newcomer can be let into the world `model`: an identifier is
/// free and the level can be sent.
pub open spec fn spec_can_join(model: ActorModel) -> bool {
    &&& !spec_all_taken(model.ids)
    &&& spec_serialise(model.world.blocks) is Ok
    &&& spec_header_fits(model.world.dimensions)
}

/// Whether `after` and `actions` are what the join of a session with
/// handle `handle`, named `name` and connected from `addr`, leads to from
/// `before`.
///
/// Where every identifier is taken the newcomer is turned away for that
/// reason, and where the level cannot be sent, for that one; the world's
/// state stays as it was. Otherwise the newcomer gets the lowest free
/// identifier, stands at the spawn location as the last of the sessions,
/// and the packets of a join are sent.
pub open spec fn spec_joined(
    before: ActorModel,
    after: ActorModel,
    handle: SessionHandle,
    name: Seq<char>,
    addr: PeerAddr,
    actions: Seq<Action>,
) -> bool {
    &&& after.world == before.world
    &&& after.spawn == before.spawn
    &&& if spec_all_taken(before.ids) {
        &&& after.ids == before.ids
        &&& after.sessions == before.sessions
        &&& spec_is_refusal(actions, REASON_SERVER_FULL@)
    } else if !spec_can_join(before) {
        &&& after.ids == before.ids
        &&& after.sessions == before.sessions
        &&& spec_is_refusal(actions, REASON_NO_LEVEL@)
    } else {
        exists|id: int|
            {
                let joiner = SessionModel {
                    handle,
                    addr,
                    id: id as PlayerId,
                    name,
                    position: before.spawn.position,
                    rotation: Rotation { pitch: before.spawn.pitch, yaw: before.spawn.yaw },
                };
                &&& #[trigger] spec_lowest_free(before.ids, id)
                &&& after.ids == before.ids.update(id, Some(handle))
                &&& after.sessions == before.sessions.push(joiner)
                &&& spec_join_actions(
                    actions,
                    joiner,
                    spec_serialise(before.world.blocks)->Ok_0,
                    before.world.dimensions,
                    before.sessions,
                )
            }
    }
}

/// Whether `after`, `info_after` and `actions` are what the
/// identification of a client named `name` leads to from `before` and
/// `info_before`.
///
/// The client is given the next handle and joins under it; on success
/// its `info` records the handle. Where no handle is left to give, the
/// client is turned away as from a full server and nothing changes.
pub open spec fn spec_identified(
    before: ActorModel,
    after: ActorModel,
    name: Seq<char>,
    info_before: ClientInfo,
    info_after: ClientInfo,
    actions: Seq<Action>,
) -> bool {
    &&& info_after.addr == info_before.addr
    &&& if before.next_handle == u64::MAX {
        &&& after == before
        &&& info_after.player_id == info_before.player_id
        &&& spec_is_refusal(actions, REASON_SERVER_FULL@)
    } else {
        &&& after.next_handle == before.next_handle + 1
        &&& spec_joined(before, after, before.next_handle, name, info_before.addr, actions)
        &&& info_after.player_id == if spec_can_join(before) {
            Some(before.next_handle)
        } else {
            info_before.player_id
        }
    }
}

/// Whether `after` and `actions` are what the block change `event` leads
/// to from `before`.
///
/// Where the position names a block of the world, the world takes the
/// placed block, or air for a destroyed one, and the change is
/// broadcast. Any other position is rejected: nothing changes and
/// nothing is sent.
pub open spec fn spec_block_set(
    before: ActorModel,
    after: ActorModel,
    event: SetBlockEvent,
    actions: Seq<Action>,
) -> bool {
    let dims = before.world.dimensions;
    &&& after.ids == before.ids
    &&& after.sessions == before.sessions
    &&& after.next_handle == before.next_handle
    &&& after.spawn == before.spawn
    &&& after.world.dimensions == dims
    &&& if dims.encloses(event.pos) && spec_index(dims, event.pos) < before.world.blocks.len() {
        let block = if event.placed {
            event.block
        } else {
            Block::Air
        };
        &&& after.world.blocks == before.world.blocks.update(
            spec_index(dims, event.pos) as int,
            block,
        )
        &&& actions == seq![
            Action::Broadcast(
                ServerPacket::SetBlock(
                    SetBlockPacket {
                        x: spec_short(event.pos.x),
                        y: spec_short(event.pos.y),
                        z: spec_short(event.pos.z),
                        block_type: block.spec_id(),
                    },
                ),
            ),
        ]
    } else {
        &&& after.world == before.world
        &&& actions == Seq::<Action>::empty()
    }
}

/// Whether `after` and `actions` are what the move `event` leads to from
/// `before`: see `spec_moved`. The move of a session that has not joined
/// changes nothing and sends nothing.
pub open spec fn spec_player_moved(
    before: ActorModel,
    after: ActorModel,
    event: PlayerMoveEvent,
    actions: Seq<Action>,
) -> bool {
    &&& after.world == before.world
    &&& after.ids == before.ids
    &&& after.next_handle == before.next_handle
    &&& after.spawn == before.spawn
    &&& if spec_has_session(before.sessions, event.entity_id) {
        exists|k: int|
            #[trigger] spec_is_index_of(before.sessions, event.entity_id, k) && spec_moved(
                before.sessions,
                event,
                k,
                after.sessions,
                actions,
            )
    } else {
        &&& after.sessions == before.sessions
        &&& actions == Seq::<Action>::empty()
    }
}

/// Whether `actions` is what a chat line `message` of the session
/// `handle` leads to: see `spec_said`. The line of a session that has
/// not joined sends nothing.
pub open spec fn spec_player_said(
    model: ActorModel,
    handle: SessionHandle,
    message: Seq<char>,
    actions: Seq<Action>,
) -> bool {
    if spec_has_session(model.sessions, handle) {
        exists|k: int|
            #[trigger] spec_is_index_of(model.sessions, handle, k) && spec_said(
                model.sessions[k],
                message,
                actions,
            )
    } else {
        actions == Seq::<Action>::empty()
    }
}

/// Whether `model` is a state the actor can be in.
pub open spec fn spec_actor_wf(model: ActorModel) -> bool {
    &&& model.ids.len() == MAX_PLAYERS
    &&& spec_distinct(model.ids)
    &&& forall|i: int|
        0 <= i < model.sessions.len() ==> {
            &&& 0 <= (#[trigger] model.sessions[i]).id < MAX_PLAYERS
            &&& model.ids[model.sessions[i].id as int] == Some(model.sessions[i].handle)
        }
    &&& forall|i: int, j: int|
        0 <= i < model.sessions.len() && 0 <= j < model.sessions.len() && i != j
            ==> model.sessions[i].handle != model.sessions[j].handle
    &&& forall|id: int|
        0 <= id < MAX_PLAYERS && (#[trigger] model.ids[id]) is Some ==> model.ids[id].unwrap()
            < model.next_handle
    &&& forall|id: int|
        0 <= id < MAX_PLAYERS && (#[trigger] model.ids[id]) is Some ==> spec_has_session(
            model.sessions,
            model.ids[id].unwrap(),
        )
}

impl WorldActor {
    /// Every session plays as an identifier in `0..=126` that the table
    /// records under the session's handle, every identifier that is taken
    /// is taken by a session, no two sessions share a handle, and no
    /// handle that is in use will be handed out again.
    pub closed spec fn wf(&self) -> bool {
        spec_actor_wf(self@)
    }

    /// An actor for `world` in which nobody has joined yet.
    pub fn new(world: BlockWorld, spawn: PlayerSpawnLocation) -> (actor: WorldActor)
        ensures
            actor.wf(),
            actor@.world == world@,
            actor@.sessions.len() == 0,
            actor@.spawn == spawn,
            actor@.next_handle == 0,
            forall|i: int| 0 <= i < MAX_PLAYERS ==> actor@.ids[i] is None,
    {
        WorldActor {
            world,
            ids: PlayerIdAllocator::new_empty(),
            sessions: Vec::new(),
            next_handle: 0,
            spawn,
        }
    }

    /// The block world.
    pub fn world(&self) -> (world: &BlockWorld)
        ensures
            world@ == self@.world,
    {
        &self.world
    }

    /// The table of player identifiers.
    pub fn ids(&self) -> (ids: &PlayerIdAllocator)
        ensures
            ids@ == self@.ids,
    {
        &self.ids
    }

    /// Number of joined sessions.
    pub fn session_count(&self) -> (count: usize)
        ensures
            count == self@.sessions.len(),
    {
        self.sessions.len()
    }

    /// The joined session at place `index`, in the order of joining. Its
    /// player's identifier lies in `0..=126`, and the table of identifiers
    /// records it under the session's handle.
    pub fn session(&self, index: usize) -> (session: &Session)
        requires
            self.wf(),
            index < self@.sessions.len(),
        ensures
            session@ == self@.sessions[index as int],
            0 <= session.player.id <= 126,
            self@.ids[session.player.id as int] == Some(session.handle),
    {
        &self.sessions[index]
    }

    /// The place of the session with handle `handle`, if it has joined.
    pub fn find_session(&self, handle: SessionHandle) -> (index: Option<usize>)
        ensures
            match index {
                Some(k) => spec_is_index_of(self@.sessions, handle, k as int),
                None => !spec_has_session(self@.sessions, handle),
            },
    {
        let mut i: usize = 0;
        while i < self.sessions.len()
            invariant
                i <= self.sessions@.len(),
                forall|j: int| 0 <= j < i ==> self@.sessions[j].handle != handle,
            decreases self.sessions@.len() - i,
        {
            if self.sessions[i].handle == handle {
                return Some(i);
            }
            i += 1;
        }
        None
    }

    /// `packet` queued for every session but the one at `except`.
    fn fan_out(&self, except: usize, packet: ServerPacket) -> (actions: Vec<Action>)
        ensures
            actions@ == spec_fan_out(
                self@.sessions,
                except as int,
                packet,
                self@.sessions.len(),
            ),
    {
        let mut actions: Vec<Action> = Vec::new();
        let mut i: usize = 0;
        while i < self.sessions.len()
            invariant
                i <= self.sessions@.len(),
                actions@ == spec_fan_out(self@.sessions, except as int, packet, i as nat),
            decreases self.sessions@.len() - i,
        {
            if i != except {
                actions.push(Action::Unicast(self.sessions[i].handle, packet));
            }
            i += 1;
        }
        actions
    }

    /// The session `event.entity_id`, connected as `connection`, joins.
    fn player_join(&mut self, event: &PlayerJoinEvent, connection: ClientConnection) -> (actions:
        Vec<Action>)
        requires
            old(self).wf(),
            old(self)@.next_handle == event.entity_id < u64::MAX,
        ensures
            final(self).wf(),
            final(self)@.next_handle == event.entity_id + 1,
            spec_joined(
                old(self)@,
                final(self)@,
                event.entity_id,
                event.username@,
                connection.addr,
                actions@,
            ),
            spec_can_join(old(self)@) <==> spec_has_session(final(self)@.sessions, event.entity_id),
    {
        let handle = event.entity_id;
        assert(!spec_has_session(self@.sessions, handle)) by {
            assert forall|k: int| 0 <= k < self@.sessions.len() implies self@.sessions[k].handle
                != handle by {
                assert(self@.ids[self@.sessions[k].id as int] is Some);
            }
        }
        assert(!spec_holds(self.ids@, handle)) by {
            assert forall|i: int| 0 <= i < self.ids@.len() implies self.ids@[i] != Some(
                handle,
            ) by {
                if self.ids@[i] is Some {
                    assert(self@.ids[i].unwrap() < handle);
                }
            }
        }
        self.next_handle = handle + 1;
        let player_id = match self.ids.allocate(handle) {
            Ok(player_id) => player_id,
            Err(_) => {
                return refusal(REASON_SERVER_FULL);
            },
        };
        let ghost id = player_id as int;
        assert(spec_lowest_free(old(self)@.ids, id));
        let level = match send_world(&self.world) {
            Ok(level) => level,
            Err(_) => {
                self.ids.free(player_id);
                assert(self.ids@ =~= old(self).ids@);
                return refusal(REASON_NO_LEVEL);
            },
        };
        let ghost data = spec_serialise(self.world@.blocks)->Ok_0;
        let ghost chunks = spec_chunk_count(data.len() as int);
        assert(spec_is_level_transfer(level@, data, self.world@.dimensions));
        let position = self.spawn.position;
        let rotation = Rotation { pitch: self.spawn.pitch, yaw: self.spawn.yaw };
        let ghost joiner = SessionModel {
            handle,
            addr: connection.addr,
            id: player_id,
            name: event.username@,
            position,
            rotation,
        };
        let mut actions: Vec<Action> = Vec::new();
        actions.push(Action::Unicast(handle, server_ident()));
        let mut i: usize = 0;
        while i < level.len()
            invariant
                i <= level@.len() == chunks + 2,
                actions@.len() == 1 + i,
                spec_sends_ident(actions@[0], handle),
                forall|k: int| 0 <= k < i ==> #[trigger] actions@[1 + k] == Action::Unicast(
                    handle,
                    level@[k],
                ),
            decreases level@.len() - i,
        {
            actions.push(Action::Unicast(handle, level[i]));
            i += 1;
        }
        let ghost sent_level = actions@;
        actions.push(
            Action::Unicast(
                handle,
                ServerPacket::PlayerTeleport(
                    PlayerTeleportPacket {
                        player_id: SELF_ID,
                        x: position.x,
                        y: position.y,
                        z: position.z,
                        yaw: rotation.yaw,
                        pitch: rotation.pitch,
                    },
                ),
            ),
        );
        actions.push(
            Action::Unicast(
                handle,
                spawn_packet(SELF_ID, event.username.as_str(), position, rotation),
            ),
        );
        let ghost head = actions@;
        let ghost others = self@.sessions;
        assert forall|k: int| 0 <= k < chunks + 2 implies #[trigger] head[1 + k] == Action::Unicast(
            handle,
            level@[k],
        ) by {
            assert(head[1 + k] == sent_level[1 + k]);
        }
        assert(head[0] == sent_level[0]);
        let mut j: usize = 0;
        while j < self.sessions.len()
            invariant
                j <= self.sessions@.len(),
                others == self@.sessions,
                actions@.len() == chunks + 5 + j,
                head.len() == chunks + 5,
                forall|k: int| 0 <= k < head.len() ==> actions@[k] == head[k],
                forall|k: int|
                    0 <= k < j ==> spec_sends_spawn(
                        #[trigger] actions@[chunks + 5 + k],
                        handle,
                        others[k].id,
                        others[k],
                    ),
            decreases self.sessions@.len() - j,
        {
            let other = &self.sessions[j];
            actions.push(
                Action::Unicast(
                    handle,
                    spawn_packet(
                        other.player.id,
                        other.player.name.as_str(),
                        other.position,
                        other.rotation,
                    ),
                ),
            );
            j += 1;
        }
        actions.push(
            Action::Broadcast(spawn_packet(player_id, event.username.as_str(), position, rotation)),
        );
        self.sessions.push(
            Session {
                handle,
                connection,
                player: Player { name: event.username.clone(), id: player_id },
                position,
                rotation,
            },
        );
        proof {
            assert(self@.sessions =~= old(self)@.sessions.push(joiner));
            assert forall|slot: int|
                0 <= slot < MAX_PLAYERS && (#[trigger] self@.ids[slot])
                    is Some implies spec_has_session(self@.sessions, self@.ids[slot].unwrap()) by {
                if slot == id {
                    lemma_has_session(self@.sessions, self@.sessions.len() - 1);
                } else {
                    let held = old(self)@.ids[slot].unwrap();
                    let j = choose|j: int|
                        0 <= j < old(self)@.sessions.len() && old(self)@.sessions[j].handle == held;
                    lemma_has_session(self@.sessions, j);
                }
            }
            assert(actions@[0] == head[0]);
            assert(actions@[1] == head[1 + 0int]);
            assert(level@[0] is LevelInit);
            assert forall|k: int| 0 <= k < chunks implies spec_sends_chunk(
                #[trigger] actions@[2 + k],
                handle,
                data,
                k,
            ) by {
                assert(actions@[2 + k] == head[1 + (1 + k)]);
            }
            assert(actions@[chunks + 2] == head[1 + (chunks + 1)]);
            assert(actions@[chunks + 3] == head[chunks + 3]);
            assert(actions@[chunks + 4] == head[chunks + 4]);
            assert(spec_join_actions(
                actions@,
                joiner,
                data,
                old(self)@.world.dimensions,
                old(self)@.sessions,
            ));
            assert(spec_has_session(self@.sessions, handle)) by {
                assert(self@.sessions[self@.sessions.len() - 1].handle == handle);
            }
        }
        actions
    }

    /// A client identified itself: it is given a handle of its own and
    /// joins under the name it gave, whatever protocol version it speaks.
    ///
    /// On success `info` records the new handle. Where no handle is left
    /// to give, the client is turned away as from a full server.
    fn player_ident(&mut self, packet: &PlayerIdentPacket, info: &mut ClientInfo) -> (actions:
        Vec<Action>)
        requires
            old(self).wf(),
        ensures
            final(self).wf(),
            spec_identified(
                old(self)@,
                final(self)@,
                utf8_lossy(spec_trim(packet.username@)),
                *old(info),
                *final(info),
                actions@,
            ),
    {
        if self.next_handle == u64::MAX {
            return refusal(REASON_SERVER_FULL);
        }
        let event = packet.event(self.next_handle);
        let actions = self.player_join(&event, ClientConnection { addr: info.addr });
        if self.find_session(event.entity_id).is_some() {
            info.player_id = Some(event.entity_id);
        }
        actions
    }

    /// The despawn of the player `id`, queued for every session that is
    /// not connected from `addr`.
    fn despawn_row(&self, addr: PeerAddr, id: PlayerId) -> (actions: Vec<Action>)
        ensures
            actions@ == spec_despawn_row(self@.sessions, addr, id, self@.sessions.len()),
    {
        let mut actions: Vec<Action> = Vec::new();
        let mut j: usize = 0;
        while j < self.sessions.len()
            invariant
                j <= self.sessions@.len(),
                actions@ == spec_despawn_row(self@.sessions, addr, id, j as nat),
            decreases self.sessions@.len() - j,
        {
            if self.sessions[j].connection.addr != addr {
                actions.push(
                    Action::Unicast(
                        self.sessions[j].handle,
                        ServerPacket::DespawnPlayer(DespawnPlayerPacket { player_id: id }),
                    ),
                );
            }
            j += 1;
        }
        actions
    }

    /// The connection from `event.0` is gone.
    ///
    /// Every session connected from that address leaves: its identifier
    /// is freed, its records are dropped, and every session that stays
    /// is sent the despawn of its player.
    pub fn player_disconnect(&mut self, event: &PlayerDisconnectEvent) -> (actions: Vec<Action>)
        requires
            old(self).wf(),
        ensures
            final(self).wf(),
            final(self)@.world == old(self)@.world,
            final(self)@.next_handle == old(self)@.next_handle,
            final(self)@.spawn == old(self)@.spawn,
            final(self)@.sessions == spec_survivors(
                old(self)@.sessions,
                event.0,
                old(self)@.sessions.len(),
            ),
            final(self)@.ids == spec_freed(
                old(self)@.ids,
                old(self)@.sessions,
                event.0,
                old(self)@.sessions.len(),
            ),
            actions@ == spec_despawns(old(self)@.sessions, event.0, old(self)@.sessions.len()),
    {
        let addr = event.0;
        let ghost before = self@;
        let count = self.sessions.len();
        let mut actions: Vec<Action> = Vec::new();
        let mut kept: Vec<Session> = Vec::new();
        let ghost mut origin: Seq<int> = Seq::empty();
        let mut i: usize = 0;
        while i < count
            invariant
                i <= count == before.sessions.len(),
                spec_actor_wf(before),
                self@.ids.len() == MAX_PLAYERS,
                self@.sessions == before.sessions,
                self@.world == before.world,
                self@.next_handle == before.next_handle,
                self@.spawn == before.spawn,
                self@.ids == spec_freed(before.ids, before.sessions, addr, i as nat),
                actions@ == spec_despawns(before.sessions, addr, i as nat),
                kept@.map_values(|s: Session| s@) == spec_survivors(
                    before.sessions,
                    addr,
                    i as nat,
                ),
                origin.len() == kept@.len(),
                forall|k: int|
                    0 <= k < origin.len() ==> 0 <= #[trigger] origin[k] < i
                        && before.sessions[origin[k]] == kept@[k]@,
                forall|a: int, b: int| 0 <= a < b < origin.len() ==> origin[a] < origin[b],
                forall|id: int|
                    0 <= id < MAX_PLAYERS ==> #[trigger] self@.ids[id] == before.ids[id]
                        || self@.ids[id] is None,
                forall|k: int|
                    0 <= k < count && (k >= i || before.sessions[k].addr != addr) ==> self@.ids[(
                    #[trigger] before.sessions[k]).id as int] == Some(before.sessions[k].handle),
                forall|k: int|
                    0 <= k < i && before.sessions[k].addr == addr ==> self@.ids[(
                    #[trigger] before.sessions[k]).id as int] is None,
                forall|k: int|
                    0 <= k < i && (#[trigger] before.sessions[k]).addr != addr ==> spec_has_session(
                        kept@.map_values(|s: Session| s@),
                        before.sessions[k].handle,
                    ),
                spec_distinct(self@.ids),
            decreases count - i,
        {
            let session = &self.sessions[i];
            if session.connection.addr == addr {
                let id = session.player.id;
                let mut row = self.despawn_row(addr, id);
                actions.append(&mut row);
                let ghost held = self@.ids;
                self.ids.free(id);
                assert forall|k: int|
                    0 <= k < count && (k >= i + 1 || before.sessions[k].addr
                        != addr) implies self@.ids[(#[trigger] before.sessions[k]).id as int]
                    == Some(before.sessions[k].handle) by {
                    assert(k != i);
                    assert(held[before.sessions[k].id as int] == Some(before.sessions[k].handle));
                    assert(held[before.sessions[i as int].id as int] == Some(
                        before.sessions[i as int].handle,
                    ));
                }
            } else {
                let ghost stayed = kept@.map_values(|s: Session| s@);
                kept.push(session.duplicate());
                proof {
                    origin = origin.push(i as int);
                    let stay = kept@.map_values(|s: Session| s@);
                    assert(stay =~= spec_survivors(before.sessions, addr, (i + 1) as nat));
                    assert forall|k: int|
                        0 <= k < i + 1 && (#[trigger] before.sessions[k]).addr
                            != addr implies spec_has_session(stay, before.sessions[k].handle) by {
                        if k == i {
                            lemma_has_session(stay, stay.len() - 1);
                        } else {
                            let j = choose|j: int|
                                0 <= j < stayed.len() && stayed[j].handle
                                    == before.sessions[k].handle;
                            lemma_has_session(stay, j);
                        }
                    }
                }
            }
            i += 1;
        }
        self.sessions = kept;
        proof {
            assert(self@.sessions =~= spec_survivors(before.sessions, addr, count as nat));
            assert forall|id: int|
                0 <= id < MAX_PLAYERS && (#[trigger] self@.ids[id])
                    is Some implies spec_has_session(self@.sessions, self@.ids[id].unwrap()) by {
                let handle = self@.ids[id].unwrap();
                assert(before.ids[id] == Some(handle));
                let j = choose|j: int|
                    0 <= j < before.sessions.len() && before.sessions[j].handle == handle;
                assert(before.ids[before.sessions[j].id as int] == Some(handle));
                assert(before.sessions[j].id as int == id);
            }
            assert forall|k: int| 0 <= k < self@.sessions.len() implies {
                &&& 0 <= (#[trigger] self@.sessions[k]).id < MAX_PLAYERS
                &&& self@.ids[self@.sessions[k].id as int] == Some(self@.sessions[k].handle)
            } by {
                let from = origin[k];
                assert(before.sessions[from] == self@.sessions[k]);
                if before.sessions[from].addr == addr {
                    lemma_survivors_stay(before.sessions, addr, count as nat, k);
                }
            }
            assert forall|a: int, b: int|
                0 <= a < self@.sessions.len() && 0 <= b < self@.sessions.len() && a
                    != b implies self@.sessions[a].handle != self@.sessions[b].handle by {
                assert(before.sessions[origin[a]] == self@.sessions[a]);
                assert(before.sessions[origin[b]] == self@.sessions[b]);
                if a < b {
                    assert(origin[a] < origin[b]);
                } else {
                    assert(origin[b] < origin[a]);
                }
            }
        }
        actions
    }

    /// A block was placed or destroyed.
    ///
    /// Where the position names a block of the world, the world takes the
    /// placed block, or air for a destroyed one, and every connection is
    /// told. Any other position is rejected: nothing changes and nothing
    /// is sent.
    pub fn set_block(&mut self, event: &SetBlockEvent) -> (actions: Vec<Action>)
        requires
            old(self).wf(),
        ensures
            final(self).wf(),
            spec_block_set(old(self)@, final(self)@, *event, actions@),
    {
        let mut actions: Vec<Action> = Vec::new();
        if !self.world.has_block(event.pos) {
            return actions;
        }
        let block = if event.placed {
            event.block
        } else {
            Block::Air
        };
        self.world.set_block(event.pos, block);
        actions.push(
            Action::Broadcast(
                ServerPacket::SetBlock(
                    SetBlockPacket {
                        x: short(event.pos.x),
                        y: short(event.pos.y),
                        z: short(event.pos.z),
                        block_type: block.id(),
                    },
                ),
            ),
        );
        assert(actions@ =~= seq![actions@[0]]);
        actions
    }

    /// A player moved or turned.
    ///
    /// Every other session is sent the smallest packet that tells of the
    /// change, with three blocks as the threshold for a teleport, and the
    /// player's records take the new position and orientation. A move of
    /// a session that has not joined is passed over.
    pub fn player_move(&mut self, event: &PlayerMoveEvent) -> (actions: Vec<Action>)
        requires
            old(self).wf(),
        ensures
            final(self).wf(),
            spec_player_moved(old(self)@, final(self)@, *event, actions@),
    {
        let k = match self.find_session(event.entity_id) {
            Some(k) => k,
            None => {
                return Vec::new();
            },
        };
        let packet = player_move_packet(
            self.sessions[k].position,
            event.pos,
            self.sessions[k].rotation,
            event.rot,
            TELEPORT_THRESHOLD,
            self.sessions[k].player.id,
        );
        let actions = match packet {
            Some(packet) => self.fan_out(k, packet),
            None => Vec::new(),
        };
        let ghost mover = self@.sessions[k as int];
        self.sessions[k].position = event.pos;
        self.sessions[k].rotation = event.rot;
        proof {
            assert(self@.sessions =~= old(self)@.sessions.update(
                k as int,
                SessionModel { position: event.pos, rotation: event.rot, ..mover },
            ));
            assert forall|id: int|
                0 <= id < MAX_PLAYERS && (#[trigger] self@.ids[id])
                    is Some implies spec_has_session(self@.sessions, self@.ids[id].unwrap()) by {
                let handle = self@.ids[id].unwrap();
                let j = choose|j: int|
                    0 <= j < old(self)@.sessions.len() && old(self)@.sessions[j].handle == handle;
                lemma_has_session(self@.sessions, j);
            }
        }
        actions
    }

    /// A player said something.
    ///
    /// Every connection is sent the line "name: message", cut to 64
    /// bytes, under the speaker's identifier. A line of a session that
    /// has not joined is passed over.
    pub fn player_message(&self, event: &PlayerMessageEvent) -> (actions: Vec<Action>)
        requires
            self.wf(),
        ensures
            spec_player_said(self@, event.entity_id, event.message@, actions@),
    {
        let mut actions: Vec<Action> = Vec::new();
        let k = match self.find_session(event.entity_id) {
            Some(k) => k,
            None => {
                return actions;
            },
        };
        let speaker = &self.sessions[k];
        let mut line: Vec<u8> = Vec::new();
        extend(&mut line, speaker.player.name.as_str().as_bytes());
        extend(&mut line, ": ".as_bytes());
        extend(&mut line, event.message.as_str().as_bytes());
        let message = PacketString::from_bytes_clipped(line.as_slice());
        actions.push(
            Action::Broadcast(
                ServerPacket::Message(MessagePacket { player_id: speaker.player.id, message }),
            ),
        );
        actions
    }
}

/// A packet from a client: something the world is asked to do.
pub trait C2SPacket {
    /// Whether `after`, `info_after` and `actions` are what the packet
    /// leads to from `before` and `info_before`.
    spec fn spec_exec(
        &self,
        before: ActorModel,
        after: ActorModel,
        info_before: ClientInfo,
        info_after: ClientInfo,
        actions: Seq<Action>,
    ) -> bool;

    /// Carries out in `world` what the packet asks for, on behalf of the
    /// client that `client_info` describes, and gives back what is to be
    /// sent.
    fn exec(&self, world: &mut WorldActor, client_info: &mut ClientInfo) -> (actions: Vec<Action>)
        requires
            old(world).wf(),
        ensures
            final(world).wf(),
            self.spec_exec(
                old(world)@,
                final(world)@,
                *old(client_info),
                *final(client_info),
                actions@,
            ),
    ;
}

/// Whether nothing changed and nothing is sent.
pub open spec fn spec_passed_over(
    before: ActorModel,
    after: ActorModel,
    info_before: ClientInfo,
    info_after: ClientInfo,
    actions: Seq<Action>,
) -> bool {
    after == before && info_after == info_before && actions == Seq::<Action>::empty()
}

impl C2SPacket for PlayerIdentPacket {
    /// The client joins under the name it gave: see `spec_identified`.
    open spec fn spec_exec(
        &self,
        before: ActorModel,
        after: ActorModel,
        info_before: ClientInfo,
        info_after: ClientInfo,
        actions: Seq<Action>,
    ) -> bool {
        spec_identified(
            before,
            after,
            utf8_lossy(spec_trim(self.username@)),
            info_before,
            info_after,
            actions,
        )
    }

    fn exec(&self, world: &mut WorldActor, client_info: &mut ClientInfo) -> (actions: Vec<Action>) {
        world.player_ident(self, client_info)
    }
}

impl C2SPacket for ClientSetBlockPacket {
    /// The block is placed, or destroyed where `mode` is not 1: see
    /// `spec_block_set`. A packet that names no block is dropped.
    open spec fn spec_exec(
        &self,
        before: ActorModel,
        after: ActorModel,
        info_before: ClientInfo,
        info_after: ClientInfo,
        actions: Seq<Action>,
    ) -> bool {
        match Block::spec_from_u8(self.block_type) {
            Some(block) => info_after == info_before && spec_block_set(
                before,
                after,
                SetBlockEvent {
                    pos: Coords {
                        x: spec_coordinate(self.x),
                        y: spec_coordinate(self.y),
                        z: spec_coordinate(self.z),
                    },
                    placed: self.mode == 1,
                    block,
                },
                actions,
            ),
            None => spec_passed_over(before, after, info_before, info_after, actions),
        }
    }

    fn exec(&self, world: &mut WorldActor, client_info: &mut ClientInfo) -> (actions: Vec<Action>) {
        match self.event() {
            Ok(event) => world.set_block(&event),
            Err(_) => Vec::new(),
        }
    }
}

impl C2SPacket for PositionPacket {
    /// The session under which the client has joined moves: see
    /// `spec_player_moved`. The packet of a client that has not joined is
    /// passed over.
    open spec fn spec_exec(
        &self,
        before: ActorModel,
        after: ActorModel,
        info_before: ClientInfo,
        info_after: ClientInfo,
        actions: Seq<Action>,
    ) -> bool {
        match info_before.player_id {
            Some(handle) => info_after == info_before && spec_player_moved(
                before,
                after,
                PlayerMoveEvent {
                    entity_id: handle,
                    pos: Position { x: self.x, y: self.y, z: self.z },
                    rot: Rotation { pitch: self.pitch, yaw: self.yaw },
                },
                actions,
            ),
            None => spec_passed_over(before, after, info_before, info_after, actions),
        }
    }

    fn exec(&self, world: &mut WorldActor, client_info: &mut ClientInfo) -> (actions: Vec<Action>) {
        match client_info.player_id {
            Some(handle) => world.player_move(&self.event(handle)),
            None => Vec::new(),
        }
    }
}

impl C2SPacket for ClientMessagePacket {
    /// The session under which the client has joined says the line: see
    /// `spec_player_said`. The packet of a client that has not joined is
    /// passed over.
    open spec fn spec_exec(
        &self,
        before: ActorModel,
        after: ActorModel,
        info_before: ClientInfo,
        info_after: ClientInfo,
        actions: Seq<Action>,
    ) -> bool {
        match info_before.player_id {
            Some(handle) => after == before && info_after == info_before && spec_player_said(
                before,
                handle,
                utf8_lossy(spec_trim(self.message@)),
                actions,
            ),
            None => spec_passed_over(before, after, info_before, info_after, actions),
        }
    }

    fn exec(&self, world: &mut WorldActor, client_info: &mut ClientInfo) -> (actions: Vec<Action>) {
        match client_info.player_id {
            Some(handle) => world.player_message(&self.event(handle)),
            None => Vec::new(),
        }
    }
}

impl C2SPacket for ClientPacket {
    open spec fn spec_exec(
        &self,
        before: ActorModel,
        after: ActorModel,
        info_before: ClientInfo,
        info_after: ClientInfo,
        actions: Seq<Action>,
    ) -> bool {
        match self {
            ClientPacket::PlayerIdent(p) => p.spec_exec(
                before,
                after,
                info_before,
                info_after,
                actions,
            ),
            ClientPacket::SetBlock(p) => p.spec_exec(
                before,
                after,
                info_before,
                info_after,
                actions,
            ),
            ClientPacket::Position(p) => p.spec_exec(
                before,
                after,
                info_before,
                info_after,
                actions,
            ),
            ClientPacket::Message(p) => p.spec_exec(
                before,
                after,
                info_before,
                info_after,
                actions,
            ),
        }
    }

    fn exec(&self, world: &mut WorldActor, client_info: &mut ClientInfo) -> (actions: Vec<Action>) {
        match self {
            ClientPacket::PlayerIdent(p) => p.exec(world, client_info),
            ClientPacket::SetBlock(p) => p.exec(world, client_info),
            ClientPacket::Position(p) => p.exec(world, client_info),
            ClientPacket::Message(p) => p.exec(world, client_info),
        }
    }
}

/// The server's identification.
fn server_ident() -> (packet: ServerPacket)
    ensures
        spec_is_server_ident(packet),
{
    ServerPacket::ServerIdent(
        ServerIdentPacket {
            protocol_version: SERVER_PROTOCOL_VERSION,
            server_name: PacketString::from_bytes_clipped(SERVER_NAME.as_bytes()),
            server_motd: PacketString::from_bytes_clipped(SERVER_MOTD.as_bytes()),
            user_type: USER_TYPE,
        },
    )
}

/// The packet that shows the player `id` named `name`.
fn spawn_packet(id: PlayerId, name: &str, position: Position, rotation: Rotation) -> (packet:
    ServerPacket)
    ensures
        spec_is_spawn(packet, id, name@, position, rotation),
{
    ServerPacket::SpawnPlayer(
        SpawnPlayerPacket {
            player_id: id,
            player_name: PacketString::from_bytes_clipped(name.as_bytes()),
            x: position.x,
            y: position.y,
            z: position.z,
            yaw: rotation.yaw,
            pitch: rotation.pitch,
        },
    )
}

/// Turns the sender away for the reason `reason`.
fn refusal(reason: &str) -> (actions: Vec<Action>)
    ensures
        spec_is_refusal(actions@, reason@),
{
    let mut actions: Vec<Action> = Vec::new();
    actions.push(
        Action::Reply(
            ServerPacket::DisconnectPlayer(
                DisconnectPlayerPacket {
                    disconnect_reason: PacketString::from_bytes_clipped(reason.as_bytes()),
                },
            ),
        ),
    );
    actions.push(Action::CloseConnection);
    actions
}

/// In every state of the actor, each session's identifier lies in
/// `0..=126` and is the one under which the table records the session.
pub proof fn lemma_session_ids(actor: WorldActor, i: int)
    requires
        actor.wf(),
        0 <= i < actor@.sessions.len(),
    ensures
        0 <= actor@.sessions[i].id <= 126,
        actor@.ids[actor@.sessions[i].id as int] == Some(actor@.sessions[i].handle),
        spec_actor_wf(actor@),
{
}

/// A handle that stands at place `k` belongs to a session.
proof fn lemma_has_session(sessions: Seq<SessionModel>, k: int)
    requires
        0 <= k < sessions.len(),
    ensures
        spec_has_session(sessions, sessions[k].handle),
{
}

/// Every session that stays is connected from another address.
proof fn lemma_survivors_stay(sessions: Seq<SessionModel>, addr: PeerAddr, n: nat, k: int)
    requires
        n <= sessions.len(),
        0 <= k < spec_survivors(sessions, addr, n).len(),
    ensures
        spec_survivors(sessions, addr, n)[k].addr != addr,
    decreases n,
{
    if n > 0 {
        let before = spec_survivors(sessions, addr, (n - 1) as nat);
        if k < before.len() {
            lemma_survivors_stay(sessions, addr, (n - 1) as nat, k);
        }
    }
}

/// Appends `bytes` to `buffer`.
fn extend(buffer: &mut Vec<u8>, bytes: &[u8])
    ensures
        final(buffer)@ == old(buffer)@ + bytes@,
{
    let mut i: usize = 0;
    while i < bytes.len()
        invariant
            i <= bytes@.len(),
            buffer@ == old(buffer)@ + bytes@.take(i as int),
        decreases bytes@.len() - i,
    {
        buffer.push(bytes[i]);
        assert(bytes@.take(i + 1) =~= bytes@.take(i as int).push(bytes@[i as int]));
        assert(buffer@ =~= old(buffer)@ + bytes@.take(i + 1));
        i += 1;
    }
    assert(bytes@.take(bytes@.len() as int) =~= bytes@);
}

/// The low sixteen bits of `value` as a signed integer.
fn short(value: u32) -> (s: i16)
    ensures
        s == spec_short(value),
{
    let low: u32 = value % 0x1_0000;
    if low < 0x8000 {
        low as i16
    } else {
        (low as i32 - 0x1_0000) as i16
    }
}

} // verus!
