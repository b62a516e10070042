//! The wire protocol between client and server, and its effect on the
//! world. Messages are plain records; rotations and translations carry
//! the bit patterns of the engine's single-precision components, which
//! the protocol itself never computes with. The server sends game events
//! on a reliable channel and frames on an unreliable one; the client
//! sends its commands on one reliable channel. Applying a block or
//! relight message changes exactly the cells the message names.

use vstd::prelude::*;

use crate::blocks::{Block, BlockId, BlockMeta};
use crate::coords::{DD, DDD};
use crate::world::{GameWorld, LightLevel};

verus! {

/// The protocol version both sides must agree on.
pub const PROTOCOL_ID: u64 = 42;

/// Largest message accepted on the reliable game-event channel, in bytes.
pub const RELIABLE_CHANNEL_MAX_LENGTH: u64 = 10240;

/// The channels the server sends on.
#[derive(Copy, Clone, PartialEq, Eq, Structural, Debug)]
pub enum ServerChannel {
    GameEvent,
    GameFrame,
}

/// The channels the client sends on.
#[derive(Copy, Clone, PartialEq, Eq, Structural, Debug)]
pub enum ClientChannel {
    ClientCommand,
}

/// Settings of a reliable, ordered channel. A limit left as `None` is
/// not configured and stays whatever the transport defaults to.
#[derive(Copy, Clone, PartialEq, Eq, Structural, Debug)]
pub struct ReliableChannelConfig {
    pub channel_id: u8,
    pub resend_time_millis: u64,
    pub max_message_size: Option<u64>,
    pub packet_budget: Option<u64>,
}

/// Settings of an unreliable channel.
#[derive(Copy, Clone, PartialEq, Eq, Structural, Debug)]
pub struct UnreliableChannelConfig {
    pub channel_id: u8,
    pub message_send_queue_size: u64,
    pub message_receive_queue_size: u64,
}

/// Settings of one channel of a connection.
#[derive(Copy, Clone, PartialEq, Eq, Structural, Debug)]
pub enum ChannelConfig {
    Reliable(ReliableChannelConfig),
    Unreliable(UnreliableChannelConfig),
}

/// The channels of one side of a connection: what it sends on and what
/// it receives on.
#[derive(Debug)]
pub struct ConnectionConfig {
    pub send_channels_config: Vec<ChannelConfig>,
    pub receive_channels_config: Vec<ChannelConfig>,
}

/// The server's reliable game-event channel: resent at once, bounded by
/// the reliable message limit.
pub open spec fn spec_game_event_channel() -> ChannelConfig {
    ChannelConfig::Reliable(
        ReliableChannelConfig {
            channel_id: 0,
            resend_time_millis: 0,
            max_message_size: Some(RELIABLE_CHANNEL_MAX_LENGTH),
            packet_budget: Some(20480u64),
        },
    )
}

/// The server's unreliable frame channel with deep queues.
pub open spec fn spec_game_frame_channel() -> ChannelConfig {
    ChannelConfig::Unreliable(
        UnreliableChannelConfig {
            channel_id: 1,
            message_send_queue_size: 2048,
            message_receive_queue_size: 2048,
        },
    )
}

/// The client's reliable command channel: resent at once, limits left
/// to the transport.
pub open spec fn spec_client_command_channel() -> ChannelConfig {
    ChannelConfig::Reliable(
        ReliableChannelConfig {
            channel_id: 0,
            resend_time_millis: 0,
            max_message_size: None,
            packet_budget: None,
        },
    )
}

/// The server's channels in wire order.
pub open spec fn spec_server_channels() -> Seq<ChannelConfig> {
    seq![spec_game_event_channel(), spec_game_frame_channel()]
}

/// The client's channels in wire order.
pub open spec fn spec_client_channels() -> Seq<ChannelConfig> {
    seq![spec_client_command_channel()]
}

impl ServerChannel {
    /// The wire id of the channel.
    pub fn id(&self) -> (r: u8)
        ensures
            r == (match self {
                ServerChannel::GameEvent => 0u8,
                ServerChannel::GameFrame => 1u8,
            }),
    {
        match self {
            ServerChannel::GameEvent => 0,
            ServerChannel::GameFrame => 1,
        }
    }

    /// The server's channels: game events reliable and resent at once,
    /// bounded by the reliable message limit; frames unreliable with
    /// deep queues.
    pub fn channels_config() -> (r: Vec<ChannelConfig>)
        ensures
            r@ == spec_server_channels(),
    {
        let mut r: Vec<ChannelConfig> = Vec::new();
        r.push(
            ChannelConfig::Reliable(
                ReliableChannelConfig {
                    channel_id: ServerChannel::GameEvent.id(),
                    resend_time_millis: 0,
                    max_message_size: Some(RELIABLE_CHANNEL_MAX_LENGTH),
                    packet_budget: Some(2 * RELIABLE_CHANNEL_MAX_LENGTH),
                },
            ),
        );
        r.push(
            ChannelConfig::Unreliable(
                UnreliableChannelConfig {
                    channel_id: ServerChannel::GameFrame.id(),
                    message_send_queue_size: 2048,
                    message_receive_queue_size: 2048,
                },
            ),
        );
        proof {
            assert(r@ =~= spec_server_channels());
        }
        r
    }
}

impl ClientChannel {
    /// The wire id of the channel.
    pub fn id(&self) -> (r: u8)
        ensures
            r == 0u8,
    {
        match self {
            ClientChannel::ClientCommand => 0,
        }
    }

    /// The client's one channel: commands reliable and resent at once,
    /// limits left to the transport.
    pub fn channels_config() -> (r: Vec<ChannelConfig>)
        ensures
            r@ == spec_client_channels(),
    {
        let mut r: Vec<ChannelConfig> = Vec::new();
        r.push(
            ChannelConfig::Reliable(
                ReliableChannelConfig {
                    channel_id: ClientChannel::ClientCommand.id(),
                    resend_time_millis: 0,
                    max_message_size: None,
                    packet_budget: None,
                },
            ),
        );
        proof {
            assert(r@ =~= spec_client_channels());
        }
        r
    }
}

/// The server's connection: it sends on the server channels and
/// receives on the client's.
pub fn server_connection_config() -> (r: ConnectionConfig)
    ensures
        r.send_channels_config@ == spec_server_channels(),
        r.receive_channels_config@ == spec_client_channels(),
{
    ConnectionConfig {
        send_channels_config: ServerChannel::channels_config(),
        receive_channels_config: ClientChannel::channels_config(),
    }
}

/// The client's connection: it sends on the client channels and
/// receives on the server's.
pub fn client_connection_config() -> (r: ConnectionConfig)
    ensures
        r.send_channels_config@ == spec_client_channels(),
        r.receive_channels_config@ == spec_server_channels(),
{
    ConnectionConfig {
        send_channels_config: ClientChannel::channels_config(),
        receive_channels_config: ServerChannel::channels_config(),
    }
}

/// A position in space: the bit patterns of the three single-precision
/// components. The protocol carries them; it never computes with them.
#[derive(Copy, Clone, PartialEq, Eq, Structural, Debug)]
pub struct Translation {
    pub x: u32,
    pub y: u32,
    pub z: u32,
}

/// A view direction: the bit patterns of the two single-precision
/// polar angles.
#[derive(Copy, Clone, PartialEq, Eq, Structural, Debug)]
pub struct PolarRotation {
    pub phi: u32,
    pub theta: u32,
}

/// Where a player stands and where it looks.
#[derive(Copy, Clone, PartialEq, Eq, Structural, Debug)]
pub struct TranslationRotation {
    pub translation: Translation,
    pub rotation: PolarRotation,
}

/// A block as it crosses the wire: its kind and its metadata word. The
/// entity attached on the receiving side is not part of the transfer.
#[derive(Copy, Clone, PartialEq, Eq, Structural, Debug)]
pub struct BlockTransfer {
    pub block: BlockId,
    pub meta: BlockMeta,
}

/// What the server tells clients on the game-event channel.
#[derive(Debug)]
pub enum ServerMessage {
    PlayerSpawn { entity: u64, id: u64, translation: TranslationRotation },
    PlayerDespawn { id: u64 },
    BlockRemove { location: DDD },
    BlockPlace { location: DDD, block_transfer: BlockTransfer },
    ChunkData { chunk: Vec<u8> },
    Relight { relights: Vec<(DDD, LightLevel)> },
}

/// The players the server currently tracks, with where each stands.
#[derive(PartialEq, Debug)]
pub struct NetworkedEntities {
    pub players: Vec<u64>,
    pub translations: Vec<TranslationRotation>,
}

/// One tick of the world as sent on the unreliable frame channel.
#[derive(PartialEq, Debug)]
pub struct NetworkFrame {
    pub tick: u32,
    pub entities: NetworkedEntities,
}

/// Which stored state of a block a client may ask for.
#[derive(Copy, Clone, PartialEq, Eq, Structural, Debug)]
pub enum FunctorType {
    InternalInventory,
}

/// A canned animation a client may start on a block's skeleton.
#[derive(Copy, Clone, PartialEq, Eq, Structural, Debug)]
pub enum AnimationKind {
    ChestOpen,
    ChestClose,
}

/// What a client asks of the server on its command channel.
#[derive(Debug)]
pub enum PlayerCommand {
    PlayerMove { translation: TranslationRotation },
    BlockRemove { location: DDD },
    BlockPlace { location: DDD, block_transfer: BlockTransfer },
    RequestChunk { chunk_coord: DD },
    RequestFunctor { location: DDD, functor: FunctorType },
    AnimationStart { location: DDD, animation: AnimationKind },
}

/// Apply a block-place message: the named cell becomes the transferred
/// block with no attached entity. Returns whether the world held the
/// cell; when it did not, nothing changes. No other cell, no light
/// level and no chunk is touched.
pub fn apply_block_place(world: &mut GameWorld, location: DDD, block_transfer: BlockTransfer) -> (r:
    bool)
    requires
        old(world).wf(),
    ensures
        final(world).wf(),
        r == (old(world).spec_block_at(location) is Some),
        r ==> final(world).spec_block_at(location) == Some(
            Block { block: block_transfer.block, meta: block_transfer.meta, entity: 0 },
        ),
        forall|c: DDD|
            c != location ==> #[trigger] final(world).spec_block_at(c) == old(
                world,
            ).spec_block_at(c),
        forall|c: DDD| #[trigger] final(world).spec_light_at(c) == old(world).spec_light_at(c),
        forall|ch: DD| #[trigger]
            final(world).spec_has_chunk(ch) == old(world).spec_has_chunk(ch),
{
    world.set(
        location,
        Block { block: block_transfer.block, meta: block_transfer.meta, entity: 0 },
    )
}

/// Apply a block-remove message: the named cell becomes air. Returns
/// whether the world held the cell; when it did not, nothing changes.
/// No other cell, no light level and no chunk is touched.
pub fn apply_block_remove(world: &mut GameWorld, location: DDD) -> (r: bool)
    requires
        old(world).wf(),
    ensures
        final(world).wf(),
        r == (old(world).spec_block_at(location) is Some),
        r ==> final(world).spec_block_at(location) == Some(
            Block { block: BlockId::Air, meta: BlockMeta { v: 0 }, entity: 0 },
        ),
        forall|c: DDD|
            c != location ==> #[trigger] final(world).spec_block_at(c) == old(
                world,
            ).spec_block_at(c),
        forall|c: DDD| #[trigger] final(world).spec_light_at(c) == old(world).spec_light_at(c),
        forall|ch: DD| #[trigger]
            final(world).spec_has_chunk(ch) == old(world).spec_has_chunk(ch),
{
    world.set(location, Block::new(BlockId::Air))
}

/// The last light level a relight batch assigns to position `c`, if any.
pub open spec fn relight_value(relights: Seq<(DDD, LightLevel)>, c: DDD) -> Option<LightLevel>
    decreases relights.len(),
{
    if relights.len() == 0 {
        None
    } else if relights.last().0 == c {
        Some(relights.last().1)
    } else {
        relight_value(relights.drop_last(), c)
    }
}

/// Apply a relight batch: each named position the world holds takes the
/// last level the batch assigns it; every other light level, every
/// block and every chunk keeps its value.
pub fn apply_relights(world: &mut GameWorld, relights: &Vec<(DDD, LightLevel)>)
    requires
        old(world).wf(),
    ensures
        final(world).wf(),
        forall|c: DDD| #[trigger]
            final(world).spec_light_at(c) == (match relight_value(relights@, c) {
                Some(l) => if old(world).spec_light_at(c) is Some {
                    Some(l)
                } else {
                    None
                },
                None => old(world).spec_light_at(c),
            }),
        forall|c: DDD| #[trigger] final(world).spec_block_at(c) == old(world).spec_block_at(c),
        forall|ch: DD| #[trigger]
            final(world).spec_has_chunk(ch) == old(world).spec_has_chunk(ch),
{
    let n = relights.len();
    let mut k: usize = 0;
    while k < n
        invariant
            world.wf(),
            n == relights@.len(),
            k <= n,
            forall|c: DDD| #[trigger]
                world.spec_light_at(c) == (match relight_value(relights@.subrange(0, k as int), c) {
                    Some(l) => if old(world).spec_light_at(c) is Some {
                        Some(l)
                    } else {
                        None
                    },
                    None => old(world).spec_light_at(c),
                }),
            forall|c: DDD| #[trigger]
                world.spec_block_at(c) == old(world).spec_block_at(c),
            forall|ch: DD| #[trigger]
                world.spec_has_chunk(ch) == old(world).spec_has_chunk(ch),
        decreases n - k,
    {
        let (c, l) = relights[k];
        world.set_light(c, l);
        proof {
            assert forall|c2: DDD| #[trigger]
                world.spec_light_at(c2) == (match relight_value(
                relights@.subrange(0, k as int + 1),
                c2,
            ) {
                Some(l2) => if old(world).spec_light_at(c2) is Some {
                    Some(l2)
                } else {
                    None
                },
                None => old(world).spec_light_at(c2),
            }) by {
                let prefix = relights@.subrange(0, k as int + 1);
                assert(prefix.drop_last() =~= relights@.subrange(0, k as int));
                assert(prefix.last() == relights@[k as int]);
            }
        }
        k = k + 1;
    }
    proof {
        assert(relights@.subrange(0, relights@.len() as int) =~= relights@);
    }
}

/// The command that fetches the chunk at `ch` when the world does not
/// hold it yet: the request to send, or nothing when the chunk is here.
pub fn chunk_to_request(world: &GameWorld, ch: DD) -> (r: Option<PlayerCommand>)
    ensures
        world.spec_has_chunk(ch) ==> r is None,
        !world.spec_has_chunk(ch) ==> r == Some(PlayerCommand::RequestChunk { chunk_coord: ch }),
{
    if world.contains_chunk(ch) {
        None
    } else {
        Some(PlayerCommand::RequestChunk { chunk_coord: ch })
    }
}

} // verus!
