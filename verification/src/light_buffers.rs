//! The fixed-size light table handed to the GPU.
use vstd::prelude::*;

verus! {

/// How many lights the table holds.
pub const MAX_LIGHTS: usize = 8;

/// Bytes in one light record: position (3 × f32), radius (f32), colour (3 × f32) and an
/// `enabled` flag (u32), laid out with 16-byte alignment.
pub const LIGHT_SIZE: usize = 32;

/// Bytes in the whole table: `MAX_LIGHTS * LIGHT_SIZE`.
pub const LIGHT_TABLE_SIZE: usize = 256;

/// The bytes of one light record, as the GPU reads it.
pub type LightRecord = [u8; LIGHT_SIZE];

/// The light table as the GPU reads it: every slot's bytes in order, and the number of
/// slots the shader walks through.
#[derive(Clone, Copy, Debug)]
pub struct LightBuffers {
    lights: [u8; LIGHT_TABLE_SIZE],
    lights_length: u32,
}

/// The table's bytes: slot after slot, each slot's bytes in order.
pub open spec fn table_bytes(slots: Seq<LightRecord>) -> Seq<u8> {
    Seq::new(LIGHT_TABLE_SIZE as nat, |i: int| slots[i / (LIGHT_SIZE as int)][i % (LIGHT_SIZE as int)])
}

/// `bytemuck::cast` from the slot array to one byte array. Both are plain byte arrays of
/// the same size, so the cast reinterprets the memory: byte `i` of the result is byte
/// `i % 32` of slot `i / 32`.
#[verifier::external_body]
fn cast_slots_to_bytes(slots: [LightRecord; MAX_LIGHTS]) -> (bytes: [u8; LIGHT_TABLE_SIZE])
    ensures
        bytes@ == table_bytes(slots@),
{
    bytemuck::cast::<[LightRecord; MAX_LIGHTS], [u8; LIGHT_TABLE_SIZE]>(slots)
}

/// Light `i` occupies bytes `32 * i` to `32 * i + 31` of the table, in order.
pub proof fn lemma_light_record_position(slots: Seq<LightRecord>, i: int, j: int)
    requires
        0 <= i < MAX_LIGHTS,
        0 <= j < LIGHT_SIZE,
    ensures
        table_bytes(slots)[LIGHT_SIZE * i + j] == slots[i][j],
{
    let k = LIGHT_SIZE * i + j;
    assert(k / (LIGHT_SIZE as int) == i && k % (LIGHT_SIZE as int) == j) by (nonlinear_arith)
        requires
            k == LIGHT_SIZE * i + j,
            0 <= j < LIGHT_SIZE,
            LIGHT_SIZE == 32,
    ;
}

impl LightBuffers {
    /// The table's bytes.
    pub closed spec fn bytes(&self) -> Seq<u8> {
        self.lights@
    }

    /// The number of slots the shader walks through.
    pub closed spec fn length(&self) -> nat {
        self.lights_length as nat
    }

    /// The table's bytes.
    pub fn lights(&self) -> (bytes: [u8; LIGHT_TABLE_SIZE])
        ensures
            bytes@ == self.bytes(),
    {
        self.lights
    }

    /// The number of slots the shader walks through.
    pub fn lights_length(&self) -> (n: u32)
        ensures
            n == self.length(),
    {
        self.lights_length
    }
}

/// Fills the light table slot by slot.
pub struct LightBufferBuilder {
    lights: [LightRecord; MAX_LIGHTS],
    index: usize,
}

impl LightBufferBuilder {
    /// Every slot, in order; the slots not filled yet are all zero bytes.
    pub closed spec fn slots(&self) -> Seq<LightRecord> {
        self.lights@
    }

    /// How many slots have been filled.
    pub closed spec fn filled(&self) -> nat {
        self.index as nat
    }

    /// A builder with every slot zeroed and none filled.
    pub fn new() -> (builder: Self)
        ensures
            builder.filled() == 0,
            builder.slots().len() == MAX_LIGHTS,
            forall|i: int, j: int|
                0 <= i < MAX_LIGHTS && 0 <= j < LIGHT_SIZE ==> #[trigger] builder.slots()[i][j] == 0u8,
    {
        let lights = [[0u8; LIGHT_SIZE]; MAX_LIGHTS];
        LightBufferBuilder { lights, index: 0 }
    }

    /// Puts `light` in the next free slot.
    pub fn add(&mut self, light: LightRecord)
        requires
            old(self).filled() < MAX_LIGHTS,
        ensures
            final(self).filled() == old(self).filled() + 1,
            final(self).slots() == old(self).slots().update(old(self).filled() as int, light),
    {
        let i = self.index;
        self.lights[i] = light;
        self.index = i + 1;
    }

    /// The finished table: all slots' bytes, with the slot count set to the table's size,
    /// `MAX_LIGHTS`, however many slots were filled.
    pub fn build(self) -> (buffers: LightBuffers)
        ensures
            buffers.bytes() == table_bytes(self.slots()),
            buffers.length() == MAX_LIGHTS,
    {
        LightBuffers { lights: cast_slots_to_bytes(self.lights), lights_length: MAX_LIGHTS as u32 }
    }
}

impl Default for LightBufferBuilder {
    /// Same as `new`.
    fn default() -> (builder: Self)
        ensures
            builder.filled() == 0,
            builder.slots().len() == MAX_LIGHTS,
            forall|i: int, j: int|
                0 <= i < MAX_LIGHTS && 0 <= j < LIGHT_SIZE ==> #[trigger] builder.slots()[i][j] == 0u8,
    {
        Self::new()
    }
}

} // verus!
