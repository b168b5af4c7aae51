//! The block world: a dense three-dimensional array of blocks.

use crate::block::{Block, BLOCK_COUNT};
use crate::compress::{gunzip, gzip, gzip_decoding, gzip_encoding};
use crate::networking::endian::{
    lemma_i16_be_round_trip, lemma_i32_be_round_trip, read_i16_be, read_i32_be, spec_i16_from_be,
    spec_i16_to_be, spec_i32_from_be, spec_i32_to_be, write_i16_be, write_i32_be,
};
use vstd::prelude::*;
use vstd::slice::slice_subrange;

verus! {

/// Three unsigned coordinates: a position in a world, or a world's dimensions.
#[derive(Debug, Clone, Copy, PartialEq, Eq, Structural)]
pub struct Coords {
    pub x: u32,
    pub y: u32,
    pub z: u32,
}

impl Coords {
    /// Number of blocks in a world of these dimensions.
    pub open spec fn volume(self) -> nat {
        (self.x as nat) * (self.y as nat) * (self.z as nat)
    }

    /// Whether `pos` is below these dimensions on every axis.
    pub open spec fn encloses(self, pos: Coords) -> bool {
        pos.x < self.x && pos.y < self.y && pos.z < self.z
    }

    /// The number of blocks in a world of these dimensions, or `None` where
    /// that number does not fit a `usize`.
    pub fn checked_volume(self) -> (volume: Option<usize>)
        ensures
            match volume {
                Some(n) => n == self.volume(),
                None => self.volume() > usize::MAX,
            },
    {
        proof {
            lemma_product_bound(self.x as int, self.y as int, 0xffff_ffff, 0xffff_ffff);
            lemma_product_bound(
                self.x as int * self.y as int,
                self.z as int,
                0xffff_ffff_int * 0xffff_ffff_int,
                0xffff_ffff,
            );
        }
        let xy: u64 = self.x as u64 * self.y as u64;
        let xyz: u128 = xy as u128 * self.z as u128;
        assert(xyz == self.volume()) by (nonlinear_arith)
            requires
                xy == self.x * self.y,
                xyz == xy * self.z,
        ;
        if xyz <= usize::MAX as u128 {
            Some(xyz as usize)
        } else {
            None
        }
    }
}

/// Place of the block at `pos` in the flat array of a world of dimensions
/// `dims`. Levels are sent and stored in this order.
pub open spec fn spec_index(dims: Coords, pos: Coords) -> nat {
    (pos.x as nat) + (pos.z as nat) * (dims.z as nat) + (pos.y as nat) * (dims.x as nat) * (
    dims.z as nat)
}

/// Why a world could not be written or read.
#[derive(Debug, Clone, Copy, PartialEq, Eq, Structural)]
pub enum WorldError {
    /// The world has more blocks, or a larger dimension, than the format can record.
    TooLarge,
    /// The compressor reported an error.
    CompressionFailed,
    /// The bytes are not a gzip stream that decodes cleanly.
    Corrupt,
    /// The data ends before the announced content is complete.
    ShortRead,
    /// The announced block count is not the volume of the dimensions.
    CountMismatch,
    /// More bytes follow the announced blocks.
    TrailingBytes,
    /// A byte of the block array names no block.
    InvalidBlock,
    /// A recorded dimension is negative.
    InvalidDimensions,
}

/// The identifiers of `blocks`, one byte each, in order.
pub open spec fn spec_block_bytes(blocks: Seq<Block>) -> Seq<u8> {
    Seq::new(blocks.len(), |i: int| blocks[i].spec_id())
}

/// The level payload before compression: the block count as a big-endian
/// 32-bit integer, then one byte for each block in index order.
pub open spec fn spec_payload(blocks: Seq<Block>) -> Seq<u8> {
    spec_i32_to_be(blocks.len() as i32) + spec_block_bytes(blocks)
}

/// The count announced in the first four bytes of a payload.
pub open spec fn spec_payload_count(payload: Seq<u8>) -> int {
    spec_i32_from_be(payload[0], payload[1], payload[2], payload[3])
}

/// The blocks named by the `count` bytes that follow a payload's header.
pub open spec fn spec_payload_blocks(payload: Seq<u8>, count: nat) -> Seq<Block> {
    Seq::new(count, |i: int| Block::spec_from_u8(payload[4 + i]).unwrap())
}

/// What reading a level payload for a world of dimensions `dims` gives.
pub open spec fn spec_parse_payload(payload: Seq<u8>, dims: Coords) -> Result<
    WorldModel,
    WorldError,
> {
    if payload.len() < 4 {
        Err(WorldError::ShortRead)
    } else if spec_payload_count(payload) != dims.volume() {
        Err(WorldError::CountMismatch)
    } else if payload.len() < 4 + dims.volume() {
        Err(WorldError::ShortRead)
    } else if payload.len() > 4 + dims.volume() {
        Err(WorldError::TrailingBytes)
    } else if exists|i: int| 0 <= i < dims.volume() && #[trigger] payload[4 + i] >= BLOCK_COUNT {
        Err(WorldError::InvalidBlock)
    } else {
        Ok(WorldModel { dimensions: dims, blocks: spec_payload_blocks(payload, dims.volume()) })
    }
}

/// What compressing the level payload of `blocks` gives.
pub open spec fn spec_serialise(blocks: Seq<Block>) -> Result<Seq<u8>, WorldError> {
    if blocks.len() > i32::MAX {
        Err(WorldError::TooLarge)
    } else {
        match gzip_encoding(spec_payload(blocks)) {
            Some(stream) => Ok(stream),
            None => Err(WorldError::CompressionFailed),
        }
    }
}

/// What reading a compressed level for a world of dimensions `dims` gives.
pub open spec fn spec_deserialise(data: Seq<u8>, dims: Coords) -> Result<WorldModel, WorldError> {
    match gzip_decoding(data) {
        Some(payload) => spec_parse_payload(payload, dims),
        None => Err(WorldError::Corrupt),
    }
}

/// Whether every dimension fits the signed 16-bit field of the file header.
pub open spec fn spec_header_fits(dims: Coords) -> bool {
    dims.x <= i16::MAX && dims.y <= i16::MAX && dims.z <= i16::MAX
}

/// The six header bytes of a world file: X, Y and Z as big-endian 16-bit integers.
pub open spec fn spec_file_header(dims: Coords) -> Seq<u8> {
    spec_i16_to_be(dims.x as i16) + spec_i16_to_be(dims.y as i16) + spec_i16_to_be(dims.z as i16)
}

/// The contents of the world file for `model`.
pub open spec fn spec_encode_file(model: WorldModel) -> Result<Seq<u8>, WorldError> {
    if !spec_header_fits(model.dimensions) {
        Err(WorldError::TooLarge)
    } else {
        match spec_serialise(model.blocks) {
            Ok(stream) => Ok(spec_file_header(model.dimensions) + stream),
            Err(e) => Err(e),
        }
    }
}

/// What reading a world file gives.
pub open spec fn spec_decode_file(file: Seq<u8>) -> Result<WorldModel, WorldError> {
    if file.len() < 6 {
        Err(WorldError::ShortRead)
    } else {
        let x = spec_i16_from_be(file[0], file[1]);
        let y = spec_i16_from_be(file[2], file[3]);
        let z = spec_i16_from_be(file[4], file[5]);
        if x < 0 || y < 0 || z < 0 {
            Err(WorldError::InvalidDimensions)
        } else {
            spec_deserialise(file.skip(6), Coords { x: x as u32, y: y as u32, z: z as u32 })
        }
    }
}

/// Reading the payload written for a world gives the world back.
pub proof fn lemma_payload_round_trip(model: WorldModel)
    requires
        model.blocks.len() == model.dimensions.volume(),
        model.blocks.len() <= i32::MAX,
    ensures
        spec_parse_payload(spec_payload(model.blocks), model.dimensions) == Ok::<
            WorldModel,
            WorldError,
        >(model),
{
    let payload = spec_payload(model.blocks);
    let count = model.blocks.len();
    lemma_i32_be_round_trip(count as i32);
    assert(payload.len() == 4 + count);
    assert(payload[0] == spec_i32_to_be(count as i32)[0]);
    assert(payload[1] == spec_i32_to_be(count as i32)[1]);
    assert(payload[2] == spec_i32_to_be(count as i32)[2]);
    assert(payload[3] == spec_i32_to_be(count as i32)[3]);
    assert forall|i: int| 0 <= i < count implies #[trigger] payload[4 + i]
        == model.blocks[i].spec_id() by {
        assert(payload[4 + i] == spec_block_bytes(model.blocks)[i]);
    }
    assert forall|i: int| 0 <= i < count implies #[trigger] payload[4 + i] < BLOCK_COUNT by {
        model.blocks[i].lemma_id_round_trip();
    }
    assert forall|i: int| 0 <= i < count implies spec_payload_blocks(payload, count)[i]
        == model.blocks[i] by {
        model.blocks[i].lemma_id_round_trip();
    }
    assert(spec_payload_blocks(payload, count) =~= model.blocks);
}

/// What a world is: its dimensions and its blocks in index order.
pub struct WorldModel {
    pub dimensions: Coords,
    pub blocks: Seq<Block>,
}

/// A finite world of blocks, stored as one flat array.
#[derive(Debug)]
pub struct BlockWorld {
    dimensions: Coords,
    blocks: Vec<Block>,
}

impl View for BlockWorld {
    type V = WorldModel;

    closed spec fn view(&self) -> WorldModel {
        WorldModel { dimensions: self.dimensions, blocks: self.blocks@ }
    }
}

impl BlockWorld {
    #[verifier::type_invariant]
    spec fn one_block_per_cell(&self) -> bool {
        self.blocks@.len() == self.dimensions.volume()
    }

    /// The array holds exactly one block for each cell of the dimensions.
    /// This holds of every world there is.
    pub open spec fn wf(&self) -> bool {
        self@.blocks.len() == self@.dimensions.volume()
    }

    /// Number of blocks in the world: the product of its dimensions.
    pub fn block_count(&self) -> (count: usize)
        ensures
            self.wf(),
            count == self@.blocks.len(),
            count == self@.dimensions.volume(),
    {
        proof {
            use_type_invariant(self);
        }
        self.blocks.len()
    }

    /// Whether `pos` names a block of this world: it lies below the
    /// dimensions on every axis and its index falls inside the array.
    pub open spec fn contains(&self, pos: Coords) -> bool {
        self@.dimensions.encloses(pos) && spec_index(self@.dimensions, pos) < self@.blocks.len()
    }

    /// The world of the given dimensions in which every block is air.
    pub open spec fn spec_new(dimensions: Coords) -> WorldModel {
        WorldModel {
            dimensions,
            blocks: Seq::new(dimensions.volume(), |i: int| Block::Air),
        }
    }

    /// A world of the given dimensions, shaped by `generator`: the
    /// generator is handed the dimensions and a world of these dimensions
    /// filled with air, once, and what it gives back is the world.
    pub fn new<F: FnOnce(Coords, BlockWorld) -> BlockWorld>(
        dimensions: Coords,
        generator: F,
    ) -> (world: BlockWorld)
        requires
            dimensions.volume() <= usize::MAX,
            forall|air: BlockWorld|
                air@ == BlockWorld::spec_new(dimensions) ==> call_requires(
                    generator,
                    (dimensions, air),
                ),
        ensures
            world.wf(),
            exists|air: BlockWorld|
                air@ == BlockWorld::spec_new(dimensions) && call_ensures(
                    generator,
                    (dimensions, air),
                    world,
                ),
    {
        let air = BlockWorld::new_air(dimensions);
        let world = generator(dimensions, air);
        proof {
            use_type_invariant(&world);
        }
        world
    }

    /// A world of the given dimensions filled with air.
    pub fn new_air(dimensions: Coords) -> (world: BlockWorld)
        requires
            dimensions.volume() <= usize::MAX,
        ensures
            world.wf(),
            world@ == BlockWorld::spec_new(dimensions),
    {
        let volume = dimensions.checked_volume().unwrap();
        let blocks = vec![Block::Air; volume];
        assert(blocks@ =~= Seq::new(dimensions.volume(), |i: int| Block::Air));
        BlockWorld { dimensions, blocks }
    }

    /// The dimensions this world was made with.
    pub fn dims(&self) -> (dimensions: Coords)
        ensures
            dimensions == self@.dimensions,
    {
        self.dimensions
    }

    /// Tells whether `pos` names a block of this world.
    pub fn has_block(&self, pos: Coords) -> (inside: bool)
        ensures
            inside == self.contains(pos),
    {
        let index: u128 = Self::wide_index(self.dimensions, pos);
        pos.x < self.dimensions.x && pos.y < self.dimensions.y && pos.z < self.dimensions.z
            && index < self.blocks.len() as u128
    }

    fn wide_index(dims: Coords, pos: Coords) -> (index: u128)
        ensures
            index == spec_index(dims, pos),
    {
        proof {
            lemma_product_bound(pos.z as int, dims.z as int, 0xffff_ffff, 0xffff_ffff);
            lemma_product_bound(dims.x as int, dims.z as int, 0xffff_ffff, 0xffff_ffff);
            lemma_product_bound(
                pos.y as int,
                dims.x as int * dims.z as int,
                0xffff_ffff,
                0xffff_ffff_int * 0xffff_ffff_int,
            );
            assert((pos.y as nat) * (dims.x as nat) * (dims.z as nat) == pos.y as int * (
            dims.x as int * dims.z as int)) by (nonlinear_arith);
        }
        let row: u128 = pos.z as u128 * dims.z as u128;
        let layer: u128 = dims.x as u128 * dims.z as u128;
        let level: u128 = pos.y as u128 * layer;
        pos.x as u128 + row + level
    }

    fn pos_to_index(&self, pos: Coords) -> (index: usize)
        requires
            self.contains(pos),
        ensures
            index == spec_index(self@.dimensions, pos),
            index < self@.blocks.len(),
    {
        let index: u128 = Self::wide_index(self.dimensions, pos);
        let len: usize = self.blocks.len();
        assert(index < len);
        index as usize
    }

    /// The level payload of this world, uncompressed.
    ///
    /// Fails with `TooLarge` exactly when the number of blocks does not fit
    /// the 32-bit count.
    pub fn to_payload(&self) -> (payload: Result<Vec<u8>, WorldError>)
        ensures
            match payload {
                Ok(bytes) => self@.blocks.len() <= i32::MAX && bytes@ == spec_payload(
                    self@.blocks,
                ),
                Err(e) => self@.blocks.len() > i32::MAX && e == WorldError::TooLarge,
            },
    {
        let len: usize = self.blocks.len();
        if len > i32::MAX as usize {
            return Err(WorldError::TooLarge);
        }
        let header = write_i32_be(len as i32);
        let mut bytes: Vec<u8> = Vec::with_capacity(len + 4);
        bytes.push(header[0]);
        bytes.push(header[1]);
        bytes.push(header[2]);
        bytes.push(header[3]);
        assert(bytes@ =~= spec_i32_to_be(len as i32));
        let mut i: usize = 0;
        while i < len
            invariant
                i <= len,
                len == self.blocks@.len(),
                bytes@ == spec_i32_to_be(len as i32) + spec_block_bytes(
                    self.blocks@.take(i as int),
                ),
            decreases len - i,
        {
            bytes.push(self.blocks[i].id());
            assert(spec_block_bytes(self.blocks@.take(i as int)).push(
                self.blocks@[i as int].spec_id(),
            ) =~= spec_block_bytes(self.blocks@.take(i + 1)));
            i += 1;
        }
        assert(self.blocks@.take(len as int) =~= self.blocks@);
        Ok(bytes)
    }

    /// Reads a world of the given dimensions from an uncompressed level
    /// payload.
    ///
    /// The payload must announce exactly the volume of `dimensions`, hold
    /// exactly that many bytes after the count, and every one of them must
    /// name a block.
    pub fn from_payload(payload: &[u8], dimensions: Coords) -> (world: Result<
        BlockWorld,
        WorldError,
    >)
        ensures
            match world {
                Ok(w) => w.wf() && spec_parse_payload(payload@, dimensions) == Ok::<
                    WorldModel,
                    WorldError,
                >(w@),
                Err(e) => spec_parse_payload(payload@, dimensions) == Err::<WorldModel, WorldError>(
                    e,
                ),
            },
    {
        if payload.len() < 4 {
            return Err(WorldError::ShortRead);
        }
        let announced: i32 = read_i32_be(payload);
        let count: usize = match dimensions.checked_volume() {
            Some(volume) => {
                if announced < 0 || announced as usize != volume {
                    return Err(WorldError::CountMismatch);
                }
                volume
            },
            None => {
                return Err(WorldError::CountMismatch);
            },
        };
        if payload.len() - 4 < count {
            return Err(WorldError::ShortRead);
        }
        if payload.len() - 4 > count {
            return Err(WorldError::TrailingBytes);
        }
        let mut blocks: Vec<Block> = Vec::with_capacity(count);
        let mut i: usize = 0;
        while i < count
            invariant
                i <= count,
                count == dimensions.volume(),
                payload@.len() == 4 + count,
                payload@.len() <= usize::MAX,
                spec_payload_count(payload@) == count,
                blocks@ == spec_payload_blocks(payload@, i as nat),
                forall|j: int| 0 <= j < i ==> #[trigger] payload@[4 + j] < BLOCK_COUNT,
            decreases count - i,
        {
            match Block::from_u8(payload[4 + i]) {
                Some(block) => {
                    blocks.push(block);
                    assert(blocks@ =~= spec_payload_blocks(payload@, (i + 1) as nat));
                },
                None => {
                    assert(payload@[4 + i as int] >= BLOCK_COUNT);
                    return Err(WorldError::InvalidBlock);
                },
            }
            i += 1;
        }
        Ok(BlockWorld { dimensions, blocks })
    }

    /// The canonical level payload: block count and block identifiers,
    /// gzip-compressed.
    ///
    /// What comes back on success deserialises, with this world's
    /// dimensions, to this world.
    pub fn serialise(&self) -> (data: Result<Vec<u8>, WorldError>)
        ensures
            match data {
                Ok(bytes) => spec_serialise(self@.blocks) == Ok::<Seq<u8>, WorldError>(bytes@)
                    && spec_deserialise(bytes@, self@.dimensions) == Ok::<WorldModel, WorldError>(
                    self@,
                ),
                Err(e) => spec_serialise(self@.blocks) == Err::<Seq<u8>, WorldError>(e),
            },
    {
        let payload = match self.to_payload() {
            Ok(payload) => payload,
            Err(e) => {
                return Err(e);
            },
        };
        proof {
            use_type_invariant(self);
            lemma_payload_round_trip(self@);
        }
        match gzip(payload.as_slice()) {
            Some(stream) => Ok(stream),
            None => Err(WorldError::CompressionFailed),
        }
    }

    /// Reads a world of the given dimensions from a compressed level.
    pub fn deserialise(data: &[u8], dimensions: Coords) -> (world: Result<BlockWorld, WorldError>)
        ensures
            match world {
                Ok(w) => w.wf() && spec_deserialise(data@, dimensions) == Ok::<
                    WorldModel,
                    WorldError,
                >(w@),
                Err(e) => spec_deserialise(data@, dimensions) == Err::<WorldModel, WorldError>(e),
            },
    {
        match gunzip(data) {
            Some(payload) => BlockWorld::from_payload(payload.as_slice(), dimensions),
            None => Err(WorldError::Corrupt),
        }
    }

    /// The contents of the world file: the three dimensions as big-endian
    /// 16-bit integers, then the compressed level.
    ///
    /// What comes back on success reads back as this world.
    pub fn to_file_bytes(&self) -> (file: Result<Vec<u8>, WorldError>)
        ensures
            match file {
                Ok(bytes) => spec_encode_file(self@) == Ok::<Seq<u8>, WorldError>(bytes@)
                    && spec_decode_file(bytes@) == Ok::<WorldModel, WorldError>(self@),
                Err(e) => spec_encode_file(self@) == Err::<Seq<u8>, WorldError>(e),
            },
    {
        let dims = self.dimensions;
        if dims.x > i16::MAX as u32 || dims.y > i16::MAX as u32 || dims.z > i16::MAX as u32 {
            return Err(WorldError::TooLarge);
        }
        let stream = match self.serialise() {
            Ok(stream) => stream,
            Err(e) => {
                return Err(e);
            },
        };
        let x = write_i16_be(dims.x as i16);
        let y = write_i16_be(dims.y as i16);
        let z = write_i16_be(dims.z as i16);
        let mut file: Vec<u8> = Vec::with_capacity(6);
        file.push(x[0]);
        file.push(x[1]);
        file.push(y[0]);
        file.push(y[1]);
        file.push(z[0]);
        file.push(z[1]);
        assert(file@ =~= spec_file_header(dims));
        let mut stream = stream;
        let ghost compressed = stream@;
        file.append(&mut stream);
        proof {
            lemma_i16_be_round_trip(dims.x as i16);
            lemma_i16_be_round_trip(dims.y as i16);
            lemma_i16_be_round_trip(dims.z as i16);
            assert(file@.skip(6) =~= compressed);
        }
        Ok(file)
    }

    /// Reads a world from the contents of a world file.
    pub fn from_file_bytes(file: &[u8]) -> (world: Result<BlockWorld, WorldError>)
        ensures
            match world {
                Ok(w) => w.wf() && spec_decode_file(file@) == Ok::<WorldModel, WorldError>(w@),
                Err(e) => spec_decode_file(file@) == Err::<WorldModel, WorldError>(e),
            },
    {
        if file.len() < 6 {
            return Err(WorldError::ShortRead);
        }
        let x: i16 = read_i16_be(slice_subrange(file, 0, 2));
        let y: i16 = read_i16_be(slice_subrange(file, 2, 4));
        let z: i16 = read_i16_be(slice_subrange(file, 4, 6));
        if x < 0 || y < 0 || z < 0 {
            return Err(WorldError::InvalidDimensions);
        }
        let dimensions = Coords { x: x as u32, y: y as u32, z: z as u32 };
        let data = slice_subrange(file, 6, file.len());
        assert(data@ =~= file@.skip(6));
        BlockWorld::deserialise(data, dimensions)
    }

    /// The world stored in `file` if there is one and it reads cleanly,
    /// else a new world of the given dimensions shaped by `generator`. The
    /// flag tells whether the world was loaded.
    pub fn load_or_new<F: FnOnce(Coords, BlockWorld) -> BlockWorld>(
        file: Option<&[u8]>,
        dimensions: Coords,
        generator: F,
    ) -> (loaded: (BlockWorld, bool))
        requires
            dimensions.volume() <= usize::MAX,
            forall|air: BlockWorld|
                air@ == BlockWorld::spec_new(dimensions) ==> call_requires(
                    generator,
                    (dimensions, air),
                ),
        ensures
            loaded.0.wf(),
            loaded.1 == (file matches Some(bytes) && spec_decode_file(bytes@) is Ok),
            loaded.1 ==> spec_decode_file(file->0@) == Ok::<WorldModel, WorldError>(loaded.0@),
            !loaded.1 ==> exists|air: BlockWorld|
                air@ == BlockWorld::spec_new(dimensions) && call_ensures(
                    generator,
                    (dimensions, air),
                    loaded.0,
                ),
    {
        if let Some(bytes) = file {
            if let Ok(world) = BlockWorld::from_file_bytes(bytes) {
                return (world, true);
            }
        }
        (BlockWorld::new(dimensions, generator), false)
    }

    /// The block at `pos`.
    pub fn get_block(&self, pos: Coords) -> (block: Block)
        requires
            self.contains(pos),
        ensures
            block == self@.blocks[spec_index(self@.dimensions, pos) as int],
    {
        let index = self.pos_to_index(pos);
        self.blocks[index]
    }

    /// Puts `block` at `pos`; every other block stays as it was.
    pub fn set_block(&mut self, pos: Coords, block: Block)
        requires
            old(self).contains(pos),
        ensures
            final(self).wf(),
            final(self)@.dimensions == old(self)@.dimensions,
            final(self)@.blocks == old(self)@.blocks.update(
                spec_index(old(self)@.dimensions, pos) as int,
                block,
            ),
    {
        proof {
            use_type_invariant(&*self);
        }
        let index = self.pos_to_index(pos);
        self.blocks[index] = block;
    }
}

proof fn lemma_product_bound(a: int, b: int, a_max: int, b_max: int)
    requires
        0 <= a <= a_max,
        0 <= b <= b_max,
    ensures
        0 <= a * b <= a_max * b_max,
{
    assert(0 <= a * b <= a_max * b_max) by (nonlinear_arith)
        requires
            0 <= a <= a_max,
            0 <= b <= b_max,
    ;
}

/// In a world that is at least as wide as it is deep, every position below
/// the dimensions has its index inside the array.
pub proof fn lemma_index_in_bounds(dims: Coords, pos: Coords)
    requires
        dims.encloses(pos),
        dims.x >= dims.z || dims.z <= 1,
    ensures
        spec_index(dims, pos) < dims.volume(),
{
    let x = pos.x as int;
    let y = pos.y as int;
    let z = pos.z as int;
    let dx = dims.x as int;
    let dy = dims.y as int;
    let dz = dims.z as int;
    assert(x + z * dz + y * dx * dz < dx * dy * dz) by (nonlinear_arith)
        requires
            0 <= x < dx,
            0 <= y < dy,
            0 <= z < dz,
            dx >= dz || dz <= 1,
    ;
}

proof fn lemma_digits_unique(a: int, b: int, c: int, d: int, base: int)
    requires
        0 <= a < base,
        0 <= c < base,
        a + b * base == c + d * base,
    ensures
        a == c,
        b == d,
{
    assert((b - d) * base == c - a) by (nonlinear_arith)
        requires
            a + b * base == c + d * base,
    ;
    assert(b == d) by (nonlinear_arith)
        requires
            (b - d) * base == c - a,
            -base < c - a < base,
    ;
}

/// In a world that is as wide as it is deep, no two positions below the
/// dimensions share an index.
pub proof fn lemma_index_injective(dims: Coords, a: Coords, b: Coords)
    requires
        dims.x == dims.z,
        dims.encloses(a),
        dims.encloses(b),
        spec_index(dims, a) == spec_index(dims, b),
    ensures
        a == b,
{
    let side = dims.x as int;
    let rest_a = a.z as int + a.y as int * side;
    let rest_b = b.z as int + b.y as int * side;
    assert(spec_index(dims, a) == a.x as int + rest_a * side) by (nonlinear_arith)
        requires
            rest_a == a.z as int + a.y as int * side,
            spec_index(dims, a) == a.x as int + a.z as int * side + a.y as int * side * side,
    ;
    assert(spec_index(dims, b) == b.x as int + rest_b * side) by (nonlinear_arith)
        requires
            rest_b == b.z as int + b.y as int * side,
            spec_index(dims, b) == b.x as int + b.z as int * side + b.y as int * side * side,
    ;
    lemma_digits_unique(a.x as int, rest_a, b.x as int, rest_b, side);
    lemma_digits_unique(a.z as int, a.y as int, b.z as int, b.y as int, side);
}

} // verus!
