//! Meshes: the part and level-of-detail tables of a unit asset, the vertex
//! and index payloads in the GPU sidecar, and the records of the text mesh
//! that is made of them.
//!
//! Every number with a fractional part is carried as the bit pattern that
//! was read, single precision in 32 bits and half precision in 16: nothing
//! here computes with them.

use crate::cache::IdCache;
use crate::codec::{
    i32_at, i32_in, in_range, le_at, le_value, lemma_le_value_bound, lemma_radix_pow_values,
    place, read_i32, read_u16, read_u32, read_u64, u16_at, u32_at, u32_in,
};
use crate::error::ExtractError;
use crate::structs::{
    bundle_slice, id_table, read_bundle, read_sidecar, sidecar_slice, source_bytes, DataHeader,
    DataReaders, Id, U32IdMap,
};
use crate::text::{decimal_text, hex_text, push_char, push_decimal, push_hex};
use std::collections::HashMap;
use vstd::prelude::*;

verus! {

broadcast use vstd::std_specs::hash::group_hash_axioms;

/// Three single-precision numbers, as bit patterns.
#[derive(Clone, Copy, Debug, PartialEq, Eq, Structural)]
pub struct Vector3 {
    pub x: u32,
    pub y: u32,
    pub z: u32,
}

/// Two single-precision numbers, as bit patterns.
#[derive(Clone, Copy, Debug, PartialEq, Eq, Structural)]
pub struct Vector2 {
    pub x: u32,
    pub y: u32,
}

/// Two half-precision numbers, as bit patterns.
#[derive(Clone, Copy, Debug, PartialEq, Eq, Structural)]
pub struct HalfVector2 {
    pub x: u16,
    pub y: u16,
}

/// Three half-precision numbers, as bit patterns.
#[derive(Clone, Copy, Debug, PartialEq, Eq, Structural)]
pub struct HalfVector3 {
    pub x: u16,
    pub y: u16,
    pub z: u16,
}

/// Two unsigned 16-bit numbers, each the numerator of a fraction of 65535.
#[derive(Clone, Copy, Debug, PartialEq, Eq, Structural)]
pub struct UShortVector2 {
    pub x: u16,
    pub y: u16,
}

/// Three unsigned 8-bit numbers, each the numerator of a fraction of 255.
#[derive(Clone, Copy, Debug, PartialEq, Eq, Structural)]
pub struct U8Vector3 {
    pub x: u8,
    pub y: u8,
    pub z: u8,
}

/// Three unsigned 16-bit numbers, each the numerator of a fraction of 65535.
#[derive(Clone, Copy, Debug, PartialEq, Eq, Structural)]
pub struct UShortVector3 {
    pub x: u16,
    pub y: u16,
    pub z: u16,
}

/// A texture coordinate, in the precision in which the vertex record holds it.
#[derive(Clone, Copy, Debug, PartialEq, Eq, Structural)]
pub enum TexCoord {
    Half(HalfVector2),
    Single(Vector2),
}

/// One vertex of a mesh.
#[derive(Clone, Copy, Debug, PartialEq, Eq, Structural)]
pub struct Vertex {
    pub pos: Vector3,
    pub uv: TexCoord,
    pub norm: HalfVector3,
    pub col: Vector3,
}

impl Vertex {
    /// The vertex whose every number is zero.
    pub open spec fn zero() -> Vertex {
        Vertex {
            pos: Vector3 { x: 0, y: 0, z: 0 },
            uv: TexCoord::Single(Vector2 { x: 0, y: 0 }),
            norm: HalfVector3 { x: 0, y: 0, z: 0 },
            col: Vector3 { x: 0, y: 0, z: 0 },
        }
    }
}

impl Default for Vertex {
    fn default() -> (r: Self)
        ensures
            r == Vertex::zero(),
    {
        Vertex {
            pos: Vector3 { x: 0, y: 0, z: 0 },
            uv: TexCoord::Single(Vector2 { x: 0, y: 0 }),
            norm: HalfVector3 { x: 0, y: 0, z: 0 },
            col: Vector3 { x: 0, y: 0, z: 0 },
        }
    }
}

/// Where the fields of one vertex record stand, for one byte stride.
#[derive(Clone, Copy, Debug, PartialEq, Eq, Structural)]
pub struct VertexLayout {
    /// The offset of the position, three single-precision numbers.
    pub position: u8,
    /// The offset of the texture coordinate.
    pub uv: u8,
    /// Whether the texture coordinate is two single-precision numbers; it is
    /// two half-precision numbers otherwise.
    pub uv_single: bool,
    /// The offset of the normal, three half-precision numbers, if the record
    /// has one.
    pub normal: Option<u8>,
    /// The number of bytes, from the start of the record, that are read.
    pub extent: u8,
}

impl VertexLayout {
    /// The closed table of the known strides.
    pub open spec fn of(stride: i32) -> Option<VertexLayout> {
        if stride == 16 {
            Some(
                VertexLayout { position: 0, uv: 12, uv_single: false, normal: None, extent: 16 },
            )
        } else if stride == 20 {
            Some(
                VertexLayout { position: 0, uv: 16, uv_single: false, normal: None, extent: 20 },
            )
        } else if stride == 24 {
            Some(
                VertexLayout { position: 0, uv: 16, uv_single: false, normal: None, extent: 24 },
            )
        } else if stride == 28 {
            Some(
                VertexLayout { position: 0, uv: 16, uv_single: false, normal: None, extent: 20 },
            )
        } else if stride == 32 {
            Some(
                VertexLayout { position: 4, uv: 16, uv_single: false, normal: None, extent: 32 },
            )
        } else if stride == 36 {
            Some(
                VertexLayout { position: 0, uv: 16, uv_single: false, normal: None, extent: 26 },
            )
        } else if stride == 40 {
            Some(
                VertexLayout {
                    position: 4,
                    uv: 20,
                    uv_single: false,
                    normal: Some(28u8),
                    extent: 34,
                },
            )
        } else if stride == 48 {
            Some(VertexLayout { position: 0, uv: 16, uv_single: true, normal: None, extent: 24 })
        } else if stride == 60 {
            Some(
                VertexLayout { position: 0, uv: 16, uv_single: false, normal: None, extent: 30 },
            )
        } else {
            None
        }
    }

    /// Whether every field lies inside the bytes that are read, and those
    /// inside one record of `stride` bytes.
    pub open spec fn consistent(self, stride: i32) -> bool {
        &&& self.position + 12 <= self.extent
        &&& self.uv + (if self.uv_single {
            8int
        } else {
            4int
        }) <= self.extent
        &&& self.normal matches Some(n) ==> n + 6 <= self.extent
        &&& self.extent <= stride
    }

    /// The layout of the vertex records of a stride, if the stride is known.
    pub fn for_stride(stride: i32) -> (r: Option<VertexLayout>)
        ensures
            r == VertexLayout::of(stride),
            r matches Some(layout) ==> layout.consistent(stride),
    {
        if stride == 16 {
            Some(
                VertexLayout { position: 0, uv: 12, uv_single: false, normal: None, extent: 16 },
            )
        } else if stride == 20 {
            Some(
                VertexLayout { position: 0, uv: 16, uv_single: false, normal: None, extent: 20 },
            )
        } else if stride == 24 {
            Some(
                VertexLayout { position: 0, uv: 16, uv_single: false, normal: None, extent: 24 },
            )
        } else if stride == 28 {
            Some(
                VertexLayout { position: 0, uv: 16, uv_single: false, normal: None, extent: 20 },
            )
        } else if stride == 32 {
            Some(
                VertexLayout { position: 4, uv: 16, uv_single: false, normal: None, extent: 32 },
            )
        } else if stride == 36 {
            Some(
                VertexLayout { position: 0, uv: 16, uv_single: false, normal: None, extent: 26 },
            )
        } else if stride == 40 {
            Some(
                VertexLayout {
                    position: 4,
                    uv: 20,
                    uv_single: false,
                    normal: Some(28u8),
                    extent: 34,
                },
            )
        } else if stride == 48 {
            Some(VertexLayout { position: 0, uv: 16, uv_single: true, normal: None, extent: 24 })
        } else if stride == 60 {
            Some(
                VertexLayout { position: 0, uv: 16, uv_single: false, normal: None, extent: 30 },
            )
        } else {
            None
        }
    }

    /// The vertex that the record at `base` holds.
    pub open spec fn vertex_at(self, s: Seq<u8>, base: int) -> Vertex {
        Vertex {
            pos: Vector3 {
                x: u32_at(s, base + self.position),
                y: u32_at(s, base + self.position + 4),
                z: u32_at(s, base + self.position + 8),
            },
            uv: if self.uv_single {
                TexCoord::Single(
                    Vector2 { x: u32_at(s, base + self.uv), y: u32_at(s, base + self.uv + 4) },
                )
            } else {
                TexCoord::Half(
                    HalfVector2 { x: u16_at(s, base + self.uv), y: u16_at(s, base + self.uv + 2) },
                )
            },
            norm: match self.normal {
                Some(n) => HalfVector3 {
                    x: u16_at(s, base + n),
                    y: u16_at(s, base + n + 2),
                    z: u16_at(s, base + n + 4),
                },
                None => HalfVector3 { x: 0, y: 0, z: 0 },
            },
            col: Vector3 { x: 0, y: 0, z: 0 },
        }
    }
}

/// The vertices of a payload of `count` records of `stride` bytes each.
///
/// For a known stride, record `i` starts at byte `i * stride`, and the
/// payload must hold the bytes that are read of every record. For any other
/// stride nothing is read, and every vertex is zero.
pub open spec fn vertices_of(payload: Seq<u8>, stride: i32, count: nat) -> Option<Seq<Vertex>> {
    match VertexLayout::of(stride) {
        None => Some(Seq::new(count, |i: int| Vertex::zero())),
        Some(layout) => if count == 0 || in_range(
            payload.len(),
            (count - 1) * stride,
            layout.extent as int,
        ) {
            Some(Seq::new(count, |i: int| layout.vertex_at(payload, i * stride)))
        } else {
            None
        },
    }
}

/// Reads the vertex record at `base`, which the caller knows to be there.
fn read_vertex(payload: &[u8], layout: VertexLayout, base: u64, Ghost(stride): Ghost<i32>) -> (r:
    Vertex)
    requires
        layout.consistent(stride),
        payload@.len() <= usize::MAX,
        in_range(payload@.len(), base as int, layout.extent as int),
    ensures
        r == layout.vertex_at(payload@, base as int),
{
    let p: u64 = base + layout.position as u64;
    let t: u64 = base + layout.uv as u64;
    let pos = Vector3 {
        x: read_u32(payload, p).unwrap(),
        y: read_u32(payload, p + 4).unwrap(),
        z: read_u32(payload, p + 8).unwrap(),
    };
    let uv = if layout.uv_single {
        TexCoord::Single(
            Vector2 { x: read_u32(payload, t).unwrap(), y: read_u32(payload, t + 4).unwrap() },
        )
    } else {
        TexCoord::Half(
            HalfVector2 { x: read_u16(payload, t).unwrap(), y: read_u16(payload, t + 2).unwrap() },
        )
    };
    let norm = match layout.normal {
        Some(n) => {
            let at: u64 = base + n as u64;
            HalfVector3 {
                x: read_u16(payload, at).unwrap(),
                y: read_u16(payload, at + 2).unwrap(),
                z: read_u16(payload, at + 4).unwrap(),
            }
        },
        None => HalfVector3 { x: 0, y: 0, z: 0 },
    };
    Vertex { pos, uv, norm, col: Vector3 { x: 0, y: 0, z: 0 } }
}

/// Decodes the vertex payload of one level of detail and appends its
/// vertices to `out`. A payload that ends inside a record that must be read
/// is rejected, and `out` is then left as it was.
pub fn decode_vertices(payload: &[u8], stride: i32, count: u32, out: &mut Vec<Vertex>) -> (r:
    Result<(), ExtractError>)
    ensures
        r is Ok <==> vertices_of(payload@, stride, count as nat) is Some,
        r is Ok ==> final(out)@ == old(out)@ + vertices_of(payload@, stride, count as nat).unwrap(),
        r is Err ==> r == Err::<(), ExtractError>(ExtractError::Format) && final(out)@ == old(out)@,
{
    let layout = VertexLayout::for_stride(stride);
    match layout {
        None => {
            let mut i: u32 = 0;
            while i < count
                invariant
                    i <= count,
                    out@ == old(out)@ + Seq::new(i as nat, |j: int| Vertex::zero()),
                decreases count - i,
            {
                out.push(Vertex::default());
                i = i + 1;
                assert(out@ =~= old(out)@ + Seq::new(i as nat, |j: int| Vertex::zero()));
            }
            Ok(())
        },
        Some(layout) => {
            if count == 0 {
                assert(out@ =~= old(out)@ + Seq::new(
                    0,
                    |j: int| layout.vertex_at(payload@, j * stride),
                ));
                return Ok(());
            }
            assert((count - 1) * stride <= 0xFFFF_FFFF * 60) by (nonlinear_arith)
                requires
                    0 < count <= 0xFFFF_FFFF,
                    0 < stride <= 60,
            ;
            let last: u64 = (count as u64 - 1) * (stride as u64);
            let len: u64 = payload.len() as u64;
            if last > len || (layout.extent as u64) > len - last {
                return Err(ExtractError::Format);
            }
            let mut i: u32 = 0;
            while i < count
                invariant
                    i <= count,
                    0 < stride <= 60,
                    layout.consistent(stride),
                    payload@.len() <= usize::MAX,
                    in_range(payload@.len(), (count - 1) * stride, layout.extent as int),
                    out@ == old(out)@ + Seq::new(
                        i as nat,
                        |j: int| layout.vertex_at(payload@, j * stride),
                    ),
                decreases count - i,
            {
                assert(0 <= i * stride <= (count - 1) * stride) by (nonlinear_arith)
                    requires
                        0 <= i <= count - 1,
                        0 < stride,
                ;
                let base: u64 = (i as u64) * (stride as u64);
                let v = read_vertex(payload, layout, base, Ghost(stride));
                out.push(v);
                i = i + 1;
                assert(out@ =~= old(out)@ + Seq::new(
                    i as nat,
                    |j: int| layout.vertex_at(payload@, j * stride),
                ));
            }
            Ok(())
        },
    }
}

/// The header of a unit asset, as far as it is understood: where the table
/// of levels of detail and the table of parts stand, and the table of
/// materials.
#[derive(Debug)]
pub struct UnitHeader {
    pub lod_offset: u32,
    pub lod_count: u32,
    pub offsets: Vec<u32>,
    pub part_offset: u32,
    pub part_count: u32,
    pub material_offset: u32,
    pub materials: U32IdMap,
}

/// What a [`UnitHeader`] holds, as mathematical values.
pub struct UnitHeaderModel {
    pub lod_offset: u32,
    pub lod_count: u32,
    pub offsets: Seq<u32>,
    pub part_offset: u32,
    pub part_count: u32,
    pub material_offset: u32,
    pub materials: Map<u32, Id>,
}

impl View for UnitHeader {
    type V = UnitHeaderModel;

    open spec fn view(&self) -> UnitHeaderModel {
        UnitHeaderModel {
            lod_offset: self.lod_offset,
            lod_count: self.lod_count,
            offsets: self.offsets@,
            part_offset: self.part_offset,
            part_count: self.part_count,
            material_offset: self.material_offset,
            materials: self.materials@,
        }
    }
}

/// The `count` relative offsets stored from `pos` on, if the buffer holds
/// them.
pub open spec fn offsets_at(s: Seq<u8>, pos: int, count: nat) -> Option<Seq<u32>> {
    if in_range(s.len(), pos, 4 * count as int) {
        Some(Seq::new(count, |i: int| u32_at(s, pos + 4 * i)))
    } else {
        None
    }
}

impl UnitHeader {
    /// The header of the unit asset `s`.
    ///
    /// The place of the table of levels of detail is read at byte `0x5C`,
    /// that of the table of parts at byte `0x64`. Each table opens with its
    /// count; the relative offsets of the levels of detail follow theirs. The
    /// table of materials is read at the place of the table of parts.
    pub open spec fn at(s: Seq<u8>) -> Option<UnitHeaderModel> {
        match (u32_in(s, 0x5C), u32_in(s, 0x64)) {
            (Some(lod_offset), Some(part_offset)) => match (
                u32_in(s, lod_offset as int),
                u32_in(s, part_offset as int),
                id_table(s, part_offset as int),
            ) {
                (Some(lod_count), Some(part_count), Some(materials)) => match offsets_at(
                    s,
                    lod_offset + 4,
                    lod_count as nat,
                ) {
                    Some(offsets) => Some(
                        UnitHeaderModel {
                            lod_offset,
                            lod_count,
                            offsets,
                            part_offset,
                            part_count,
                            material_offset: part_offset,
                            materials,
                        },
                    ),
                    None => None,
                },
                _ => None,
            },
            _ => None,
        }
    }

    /// Reads the header of a unit asset, if the buffer holds all of it.
    pub fn parse(data: &[u8]) -> (r: Option<UnitHeader>)
        ensures
            match r {
                Some(h) => UnitHeader::at(data@) == Some(h@),
                None => UnitHeader::at(data@) is None,
            },
    {
        let lod_offset = match read_u32(data, 0x5C) {
            Some(v) => v,
            None => {
                return None;
            },
        };
        let lod_count = match read_u32(data, lod_offset as u64) {
            Some(v) => v,
            None => {
                return None;
            },
        };
        let first: u64 = lod_offset as u64 + 4;
        let len: u64 = data.len() as u64;
        if first > len || (len - first) / 4 < lod_count as u64 {
            return None;
        }
        let mut offsets: Vec<u32> = Vec::new();
        let mut i: u32 = 0;
        while i < lod_count
            invariant
                i <= lod_count,
                first == lod_offset + 4,
                in_range(data@.len(), first as int, 4 * lod_count),
                offsets@ == Seq::new(i as nat, |j: int| u32_at(data@, first + 4 * j)),
            decreases lod_count - i,
        {
            offsets.push(read_u32(data, first + 4 * (i as u64)).unwrap());
            i = i + 1;
            assert(offsets@ =~= Seq::new(i as nat, |j: int| u32_at(data@, first + 4 * j)));
        }
        let part_offset = match read_u32(data, 0x64) {
            Some(v) => v,
            None => {
                return None;
            },
        };
        let part_count = match read_u32(data, part_offset as u64) {
            Some(v) => v,
            None => {
                return None;
            },
        };
        let materials = match U32IdMap::parse(data, part_offset as u64) {
            Some(v) => v,
            None => {
                return None;
            },
        };
        Some(
            UnitHeader {
                lod_offset,
                lod_count,
                offsets,
                part_offset,
                part_count,
                material_offset: part_offset,
                materials,
            },
        )
    }
}

/// The size of one part definition in the part table, padding included.
pub const PART_DEF_SIZE: u64 = 24;

/// What one sub-part of a mesh is made of: its place in the list of
/// sub-part identifiers, and its ranges of vertices and of indices.
#[derive(Clone, Copy, Debug, PartialEq, Eq, Structural)]
pub struct PartDef {
    pub index: i32,
    pub vtx_offset: i32,
    pub vtx_count: i32,
    pub idx_offset: i32,
    pub idx_count: i32,
}

impl PartDef {
    /// The part definition whose five numbers stand at `pos`.
    pub open spec fn at(s: Seq<u8>, pos: int) -> PartDef {
        PartDef {
            index: i32_at(s, pos),
            vtx_offset: i32_at(s, pos + 4),
            vtx_count: i32_at(s, pos + 8),
            idx_offset: i32_at(s, pos + 12),
            idx_count: i32_at(s, pos + 16),
        }
    }

    /// Reads the part definition at `pos`, if its five numbers are there.
    pub fn parse(data: &[u8], pos: u64) -> (r: Option<PartDef>)
        ensures
            r == if in_range(data@.len(), pos as int, 20) {
                Some(PartDef::at(data@, pos as int))
            } else {
                None
            },
    {
        let len: u64 = data.len() as u64;
        if pos > len || len - pos < 20 {
            return None;
        }
        Some(
            PartDef {
                index: read_i32(data, pos).unwrap(),
                vtx_offset: read_i32(data, pos + 4).unwrap(),
                vtx_count: read_i32(data, pos + 8).unwrap(),
                idx_offset: read_i32(data, pos + 12).unwrap(),
                idx_count: read_i32(data, pos + 16).unwrap(),
            },
        )
    }
}

/// One sub-part of a mesh: its identifier, its definition and its material.
#[derive(Clone, Copy, Debug, PartialEq, Eq, Structural)]
pub struct Part {
    pub id: u32,
    pub def: PartDef,
    pub material_id: Id,
}

/// The sub-part that a definition stands for: its identifier is the one the
/// definition points at in the list of `count` identifiers at `ids_at`, or
/// all ones where it points outside the list; its material is the one the
/// table has for that identifier, or the invalid identifier.
pub open spec fn part_of(
    s: Seq<u8>,
    materials: Map<u32, Id>,
    ids_at: int,
    count: nat,
    def: PartDef,
) -> Part {
    let id = if 0 <= def.index < count {
        u32_at(s, ids_at + 4 * def.index)
    } else {
        u32::MAX
    };
    Part {
        id,
        def,
        material_id: if materials.contains_key(id) {
            materials[id]
        } else {
            Id { _id: u64::MAX }
        },
    }
}

/// The sub-parts of one record of the part table, and the mesh they belong
/// to.
pub struct PartGroup {
    pub mesh_index: i32,
    pub parts: Seq<Part>,
}

/// The record of the part table at `target`: the mesh index, then, `0x3C`
/// bytes on, the count of sub-parts, four unused bytes, the identifiers of
/// the sub-parts and their definitions.
pub open spec fn part_group(s: Seq<u8>, materials: Map<u32, Id>, target: int) -> Option<PartGroup> {
    match (i32_in(s, target), u32_in(s, target + 0x3C)) {
        (Some(mesh_index), Some(count)) => {
            let ids_at = target + 0x44;
            let defs_at = ids_at + 4 * count;
            if in_range(s.len(), ids_at, 4 * count) && (count == 0 || in_range(
                s.len(),
                defs_at + PART_DEF_SIZE * (count - 1),
                20,
            )) {
                Some(
                    PartGroup {
                        mesh_index,
                        parts: Seq::new(
                            count as nat,
                            |j: int|
                                part_of(
                                    s,
                                    materials,
                                    ids_at,
                                    count as nat,
                                    PartDef::at(s, defs_at + PART_DEF_SIZE * j),
                                ),
                        ),
                    },
                )
            } else {
                None
            }
        },
        _ => None,
    }
}

/// Where the record of part `i` stands: the relative offset stored in slot
/// `i` of the part table, counted from the table, and `0x3C` bytes on.
pub open spec fn part_target(s: Seq<u8>, part_offset: u32, i: int) -> Option<int> {
    match u32_in(s, part_offset + 4 + 4 * i) {
        Some(rel) => Some(part_offset + rel + 0x3C),
        None => None,
    }
}

/// The list that a table of lists has for a key; empty when it has none.
pub open spec fn list_at(m: Map<i32, Seq<Part>>, key: i32) -> Seq<Part> {
    if m.contains_key(key) {
        m[key]
    } else {
        Seq::empty()
    }
}

/// The sub-parts of every mesh after the first `n` records of the part
/// table: each record adds its sub-parts, in their order, to the list of its
/// mesh, and a record without sub-parts still gives its mesh a list. `None`
/// when one of the records cannot be read.
pub open spec fn parts_table(s: Seq<u8>, h: UnitHeaderModel, n: nat) -> Option<
    Map<i32, Seq<Part>>,
>
    decreases n,
{
    if n == 0 {
        Some(Map::empty())
    } else {
        match (parts_table(s, h, (n - 1) as nat), part_target(s, h.part_offset, n - 1)) {
            (Some(acc), Some(target)) => match part_group(s, h.materials, target) {
                Some(group) => Some(
                    acc.insert(group.mesh_index, list_at(acc, group.mesh_index) + group.parts),
                ),
                None => None,
            },
            _ => None,
        }
    }
}

/// The lists of a map of vectors of parts, as sequences.
pub open spec fn part_lists(m: Map<i32, Vec<Part>>) -> Map<i32, Seq<Part>> {
    Map::new(|k: i32| m.contains_key(k), |k: i32| m[k]@)
}

/// Reads the record of the part table at `target` and appends its sub-parts
/// to `list`. The result is the mesh index of the record.
fn read_part_group(data: &[u8], materials: &U32IdMap, target: u64, list: &mut Vec<Part>) -> (r:
    Option<i32>)
    requires
        target <= 0x3_0000_0000,
    ensures
        match r {
            Some(mesh_index) => part_group(data@, materials@, target as int) matches Some(group)
                && group.mesh_index == mesh_index && final(list)@ == old(list)@ + group.parts,
            None => part_group(data@, materials@, target as int) is None,
        },
{
    let mesh_index = match read_i32(data, target) {
        Some(v) => v,
        None => {
            return None;
        },
    };
    let count = match read_u32(data, target + 0x3C) {
        Some(v) => v,
        None => {
            return None;
        },
    };
    let ids_at: u64 = target + 0x44;
    let defs_at: u64 = ids_at + 4 * (count as u64);
    let len: u64 = data.len() as u64;
    if ids_at > len || (len - ids_at) / 4 < count as u64 {
        return None;
    }
    if count == 0 {
        assert(list@ =~= old(list)@ + Seq::<Part>::empty());
        assert(part_group(data@, materials@, target as int).unwrap().parts =~= Seq::<
            Part,
        >::empty());
        return Some(mesh_index);
    }
    let last: u64 = defs_at + 24 * (count as u64 - 1);
    if last > len || len - last < 20 {
        return None;
    }
    let mut j: u32 = 0;
    while j < count
        invariant
            j <= count,
            0 < count,
            target <= 0x3_0000_0000,
            ids_at == target + 0x44,
            defs_at == ids_at + 4 * count,
            data@.len() <= usize::MAX,
            in_range(data@.len(), ids_at as int, 4 * count),
            in_range(data@.len(), defs_at + PART_DEF_SIZE * (count - 1), 20),
            list@ == old(list)@ + Seq::new(
                j as nat,
                |k: int|
                    part_of(
                        data@,
                        materials@,
                        ids_at as int,
                        count as nat,
                        PartDef::at(data@, defs_at + PART_DEF_SIZE * k),
                    ),
            ),
        decreases count - j,
    {
        let def = PartDef::parse(data, defs_at + 24 * (j as u64)).unwrap();
        let id: u32 = if 0 <= def.index && (def.index as u32) < count {
            read_u32(data, ids_at + 4 * (def.index as u64)).unwrap()
        } else {
            0xFFFF_FFFF
        };
        let material_id = match materials.get(&id) {
            Some(m) => *m,
            None => Id::invalid(),
        };
        list.push(Part { id, def, material_id });
        j = j + 1;
        assert(list@ =~= old(list)@ + Seq::new(
            j as nat,
            |k: int|
                part_of(
                    data@,
                    materials@,
                    ids_at as int,
                    count as nat,
                    PartDef::at(data@, defs_at + PART_DEF_SIZE * k),
                ),
        ));
    }
    Some(mesh_index)
}

/// Reads the part table of a unit asset: for every mesh index, the
/// sub-parts of that mesh in the order of the table.
pub fn read_parts(data: &[u8], h: &UnitHeader) -> (r: Option<HashMap<i32, Vec<Part>>>)
    ensures
        match r {
            Some(parts) => parts_table(data@, h@, h.part_count as nat) == Some(
                part_lists(parts@),
            ),
            None => parts_table(data@, h@, h.part_count as nat) is None,
        },
{
    let mut parts: HashMap<i32, Vec<Part>> = HashMap::new();
    let mut i: u32 = 0;
    assert(part_lists(parts@) =~= Map::<i32, Seq<Part>>::empty());
    while i < h.part_count
        invariant
            i <= h.part_count,
            parts_table(data@, h@, i as nat) == Some(part_lists(parts@)),
        decreases h.part_count - i,
    {
        let slot: u64 = h.part_offset as u64 + 4 + 4 * (i as u64);
        let rel = match read_u32(data, slot) {
            Some(v) => v,
            None => {
                proof {
                    lemma_parts_table_fails(data@, h@, (i + 1) as nat, h.part_count as nat);
                }
                return None;
            },
        };
        let target: u64 = h.part_offset as u64 + rel as u64 + 0x3C;
        let ghost before = part_lists(parts@);
        let mut list: Vec<Part> = Vec::new();
        let mesh_index = match read_part_group(data, &h.materials, target, &mut list) {
            Some(v) => v,
            None => {
                proof {
                    lemma_parts_table_fails(data@, h@, (i + 1) as nat, h.part_count as nat);
                }
                return None;
            },
        };
        let mut whole: Vec<Part> = match parts.remove(&mesh_index) {
            Some(l) => l,
            None => Vec::new(),
        };
        assert(whole@ == list_at(before, mesh_index));
        whole.append(&mut list);
        parts.insert(mesh_index, whole);
        assert(part_lists(parts@) =~= before.insert(
            mesh_index,
            list_at(before, mesh_index) + part_group(
                data@,
                h@.materials,
                target as int,
            ).unwrap().parts,
        ));
        i = i + 1;
    }
    Some(parts)
}

/// Once a record of the part table cannot be read, no longer table can.
proof fn lemma_parts_table_fails(s: Seq<u8>, h: UnitHeaderModel, n: nat, m: nat)
    requires
        n <= m,
        parts_table(s, h, n) is None,
    ensures
        parts_table(s, h, m) is None,
    decreases m - n,
{
    if n < m {
        lemma_parts_table_fails(s, h, n, (m - 1) as nat);
    }
}

/// The descriptor of one level of detail: how many vertices and indices it
/// has, the byte stride of its vertex records, and where its two payloads
/// stand in the asset's region of the GPU sidecar.
#[derive(Clone, Copy, Debug, PartialEq, Eq, Structural)]
pub struct MeshLod {
    pub vtx_count: u32,
    pub stride: i32,
    pub idx_count: u32,
    pub vtx_offset: u32,
    pub vtx_size: u32,
    pub idx_offset: u32,
    pub idx_size: u32,
}

/// The number of bytes that a descriptor of a level of detail spans.
pub const MESH_LOD_SIZE: u64 = 0x50;

impl MeshLod {
    /// The descriptor at `pos`.
    pub open spec fn at(s: Seq<u8>, pos: int) -> MeshLod {
        MeshLod {
            vtx_count: u32_at(s, pos),
            stride: i32_at(s, pos + 4),
            idx_count: u32_at(s, pos + 0x28),
            vtx_offset: u32_at(s, pos + 0x40),
            vtx_size: u32_at(s, pos + 0x44),
            idx_offset: u32_at(s, pos + 0x48),
            idx_size: u32_at(s, pos + 0x4C),
        }
    }

    /// The descriptor at `pos`, if the buffer holds all of it.
    pub open spec fn found(s: Seq<u8>, pos: int) -> Option<MeshLod> {
        if in_range(s.len(), pos, MESH_LOD_SIZE as int) {
            Some(MeshLod::at(s, pos))
        } else {
            None
        }
    }

    /// Reads the descriptor at `pos`, if the buffer holds all of it.
    pub fn parse(data: &[u8], pos: u64) -> (r: Option<MeshLod>)
        ensures
            r == MeshLod::found(data@, pos as int),
    {
        let len: u64 = data.len() as u64;
        if pos > len || len - pos < 0x50 {
            return None;
        }
        Some(
            MeshLod {
                vtx_count: read_u32(data, pos).unwrap(),
                stride: read_i32(data, pos + 4).unwrap(),
                idx_count: read_u32(data, pos + 0x28).unwrap(),
                vtx_offset: read_u32(data, pos + 0x40).unwrap(),
                vtx_size: read_u32(data, pos + 0x44).unwrap(),
                idx_offset: read_u32(data, pos + 0x48).unwrap(),
                idx_size: read_u32(data, pos + 0x4C).unwrap(),
            },
        )
    }
}

/// The working model of one mesh asset: the sub-parts of every mesh, and
/// the vertices read so far.
#[derive(Debug)]
pub struct Mesh {
    pub parts: HashMap<i32, Vec<Part>>,
    pub vertices: Vec<Vertex>,
    pub indices: Vec<Vec<u16>>,
}

/// One record of the text mesh.
#[derive(Clone, Copy, Debug, PartialEq, Eq, Structural)]
pub enum ObjRecord {
    /// The running number of the vertex whose three records follow,
    /// counted from one.
    Index(u64),
    /// The position of a vertex.
    Position(Vector3),
    /// The texture coordinate of a vertex.
    Texture(TexCoord),
    /// The normal of a vertex.
    Normal(HalfVector3),
    /// The start of the named group of one sub-part. The name is made of
    /// two fields of the asset's header and of the sub-part's identifier.
    Group { unk4c: u32, id: Id, part: u32 },
    /// One triangle, as three vertex references counted from one.
    Face(u64, u64, u64),
}

/// The byte widths that an index can have.
pub open spec fn valid_width(width: int) -> bool {
    width == 1 || width == 2 || width == 4 || width == 8
}

/// The byte width of the indices of a level of detail: the size of its
/// index payload divided by its count of indices, and zero, which is no
/// width, where it has no indices.
pub open spec fn index_width(lod: MeshLod) -> int {
    if lod.idx_count == 0 {
        0
    } else {
        lod.idx_size as int / lod.idx_count as int
    }
}

/// The vertex reference that the index at `pos` stands for: the index,
/// moved by the sub-part's vertex offset, counted from one. There is none
/// when that number is below one or does not fit in 64 bits.
pub open spec fn corner(indices: Seq<u8>, width: int, pos: int, bias: int) -> Option<u64> {
    let v = le_at(indices, pos, width) + bias + 1;
    if 1 <= v <= u64::MAX {
        Some(v as u64)
    } else {
        None
    }
}

/// Triangle `t` of a sub-part: its three indices stand one after the other,
/// the first at index `idx_offset + 3 * t` of the payload.
pub open spec fn face_at(indices: Seq<u8>, width: int, def: PartDef, t: int) -> Option<
    ObjRecord,
> {
    let pos = (def.idx_offset + 3 * t) * width;
    if valid_width(width) && in_range(indices.len(), pos, 3 * width) {
        match (
            corner(indices, width, pos, def.vtx_offset as int),
            corner(indices, width, pos + width, def.vtx_offset as int),
            corner(indices, width, pos + 2 * width, def.vtx_offset as int),
        ) {
            (Some(a), Some(b), Some(c)) => Some(ObjRecord::Face(a, b, c)),
            _ => None,
        }
    } else {
        None
    }
}

/// The number of triangles of a sub-part: one for every three indices, and
/// one more for what is left over.
pub open spec fn face_count(def: PartDef) -> nat {
    if def.idx_count <= 0 {
        0
    } else {
        ((def.idx_count + 2) / 3) as nat
    }
}

/// The triangles of a sub-part; `None` when one of them cannot be read.
pub open spec fn part_faces(indices: Seq<u8>, width: int, def: PartDef) -> Option<
    Seq<ObjRecord>,
> {
    if forall|t: int| 0 <= t < face_count(def) ==> (#[trigger] face_at(indices, width, def, t))
        is Some {
        Some(Seq::new(face_count(def), |t: int| face_at(indices, width, def, t).unwrap()))
    } else {
        None
    }
}

/// The records of a list of sub-parts: for each, its group and then its
/// triangles.
pub open spec fn parts_records(
    indices: Seq<u8>,
    width: int,
    unk4c: u32,
    id: Id,
    parts: Seq<Part>,
) -> Option<Seq<ObjRecord>>
    decreases parts.len(),
{
    if parts.len() == 0 {
        Some(Seq::empty())
    } else {
        match (
            parts_records(indices, width, unk4c, id, parts.drop_last()),
            part_faces(indices, width, parts.last().def),
        ) {
            (Some(before), Some(faces)) => Some(
                before + seq![ObjRecord::Group { unk4c, id, part: parts.last().id }] + faces,
            ),
            _ => None,
        }
    }
}

/// The records of a list of vertices that follow `before` others: for
/// each, its running number among all vertices of the mesh, counted from
/// one, its position, its texture coordinate and its normal.
pub open spec fn vertex_records(vertices: Seq<Vertex>, before: nat) -> Seq<ObjRecord>
    decreases vertices.len(),
{
    if vertices.len() == 0 {
        Seq::empty()
    } else {
        vertex_records(vertices.drop_last(), before) + seq![
            ObjRecord::Index((before + vertices.len()) as u64),
            ObjRecord::Position(vertices.last().pos),
            ObjRecord::Texture(vertices.last().uv),
            ObjRecord::Normal(vertices.last().norm),
        ]
    }
}

/// What one level of detail gives: the vertices read so far with its own
/// added, and its records.
pub struct LodOutcome {
    pub vertices: Seq<Vertex>,
    pub records: Seq<ObjRecord>,
}

/// Level of detail `i` of a unit asset, `seen` being the vertices of the
/// levels before it.
///
/// Its descriptor stands `0x160` bytes after the place that its relative
/// offset names, counted from the table of levels of detail. Its two
/// payloads are ranges of the GPU sidecar, counted from the asset's own
/// place in it. Its records are those of its own vertices, then those of
/// the sub-parts of the mesh whose index is `i`.
pub open spec fn lod_step(
    asset: Seq<u8>,
    gpu: Option<Seq<u8>>,
    d: DataHeader,
    h: UnitHeaderModel,
    parts: Map<i32, Seq<Part>>,
    i: int,
    seen: Seq<Vertex>,
) -> Result<LodOutcome, ExtractError> {
    match MeshLod::found(asset, h.lod_offset + h.offsets[i] + 0x160) {
        None => Err(ExtractError::Format),
        Some(lod) => match sidecar_slice(
            gpu,
            d.gpu_data_offset + lod.vtx_offset,
            lod.vtx_size as int,
        ) {
            Err(e) => Err(e),
            Ok(vertex_payload) => match vertices_of(
                vertex_payload,
                lod.stride,
                lod.vtx_count as nat,
            ) {
                None => Err(ExtractError::Format),
                Some(added) => match sidecar_slice(
                    gpu,
                    d.gpu_data_offset + lod.idx_offset,
                    lod.idx_size as int,
                ) {
                    Err(e) => Err(e),
                    Ok(index_payload) => if !parts.contains_key(i as i32) {
                        Err(ExtractError::Format)
                    } else {
                        match parts_records(
                            index_payload,
                            index_width(lod),
                            d.unk4c,
                            d.unk_id,
                            parts[i as i32],
                        ) {
                            None => Err(ExtractError::Format),
                            Some(groups) => Ok(
                                LodOutcome {
                                    vertices: seen + added,
                                    records: vertex_records(added, seen.len()) + groups,
                                },
                            ),
                        }
                    },
                },
            },
        },
    }
}

/// The first `n` levels of detail of a unit asset, one after the other.
pub open spec fn lods(
    asset: Seq<u8>,
    gpu: Option<Seq<u8>>,
    d: DataHeader,
    h: UnitHeaderModel,
    parts: Map<i32, Seq<Part>>,
    n: nat,
) -> Result<LodOutcome, ExtractError>
    decreases n,
{
    if n == 0 {
        Ok(LodOutcome { vertices: Seq::empty(), records: Seq::empty() })
    } else {
        match lods(asset, gpu, d, h, parts, (n - 1) as nat) {
            Err(e) => Err(e),
            Ok(before) => match lod_step(asset, gpu, d, h, parts, n - 1, before.vertices) {
                Err(e) => Err(e),
                Ok(this) => Ok(
                    LodOutcome {
                        vertices: this.vertices,
                        records: before.records + this.records,
                    },
                ),
            },
        }
    }
}

/// The records of the text mesh of a unit asset.
///
/// The asset is the range of the bundle that its header names. Its header
/// and its part table are read first, then its levels of detail in their
/// order. What cannot be read makes the whole asset fail: a malformed asset
/// with `Format`, a payload that the GPU sidecar does not hold with
/// `MissingPayload`.
pub open spec fn mesh_records(bundle: Seq<u8>, gpu: Option<Seq<u8>>, d: DataHeader) -> Result<
    Seq<ObjRecord>,
    ExtractError,
> {
    match bundle_slice(bundle, d.data_offset as int, d.data_size as int) {
        Err(e) => Err(e),
        Ok(asset) => match UnitHeader::at(asset) {
            None => Err(ExtractError::Format),
            Some(h) => match parts_table(asset, h, h.part_count as nat) {
                None => Err(ExtractError::Format),
                Some(parts) => match lods(asset, gpu, d, h, parts, h.offsets.len()) {
                    Err(e) => Err(e),
                    Ok(all) => Ok(all.records),
                },
            },
        },
    }
}

/// Reads the index of `width` bytes at `pos`.
fn read_index(data: &[u8], pos: u64, width: u32) -> (r: Option<u64>)
    requires
        pos <= u64::MAX - 8,
    ensures
        r == if valid_width(width as int) && in_range(data@.len(), pos as int, width as int) {
            Some(le_at(data@, pos as int, width as int) as u64)
        } else {
            None
        },
        r is Some ==> r.unwrap() == le_at(data@, pos as int, width as int),
{
    proof {
        lemma_radix_pow_values();
        lemma_le_value_bound(crate::codec::field(data@, pos as int, width as int));
    }
    if width == 1 {
        match place(data, pos) {
            Some(at) => {
                if at < data.len() {
                    proof {
                        let f = crate::codec::field(data@, pos as int, 1);
                        assert(f.len() == 1);
                        assert(f.drop_first().len() == 0);
                        assert(le_value(f) == f[0] as nat + 256 * le_value(f.drop_first()));
                    }
                    Some(data[at] as u64)
                } else {
                    None
                }
            },
            None => None,
        }
    } else if width == 2 {
        match read_u16(data, pos) {
            Some(v) => Some(v as u64),
            None => None,
        }
    } else if width == 4 {
        match read_u32(data, pos) {
            Some(v) => Some(v as u64),
            None => None,
        }
    } else if width == 8 {
        read_u64(data, pos)
    } else {
        None
    }
}

/// Moves an index by a sub-part's vertex offset and counts it from one.
fn make_corner(raw: u64, bias: i32) -> (r: Option<u64>)
    ensures
        r == if 1 <= raw + bias + 1 <= u64::MAX {
            Some((raw + bias + 1) as u64)
        } else {
            None
        },
{
    if bias >= 0 {
        let up: u64 = bias as u64 + 1;
        if raw > u64::MAX - up {
            None
        } else {
            Some(raw + up)
        }
    } else {
        let down: u64 = (-(bias as i64) - 1) as u64;
        if raw <= down {
            None
        } else {
            Some(raw - down)
        }
    }
}

/// Reads triangle `t` of a sub-part.
fn read_face(indices: &[u8], width: u32, def: PartDef, t: u32) -> (r: Option<ObjRecord>)
    requires
        t < 0x4000_0000,
    ensures
        r == face_at(indices@, width as int, def, t as int),
{
    if !(width == 1 || width == 2 || width == 4 || width == 8) {
        return None;
    }
    let first: i64 = def.idx_offset as i64 + 3 * (t as i64);
    if first < 0 {
        assert((def.idx_offset + 3 * t) * width < 0) by (nonlinear_arith)
            requires
                def.idx_offset + 3 * t < 0,
                width > 0,
        ;
        return None;
    }
    assert(0 <= (def.idx_offset + 3 * t) * width <= 0x1_4000_0000 * 8) by (nonlinear_arith)
        requires
            0 <= def.idx_offset + 3 * t <= 0x1_4000_0000,
            0 < width <= 8,
    ;
    let pos: u64 = (first as u64) * (width as u64);
    let w: u64 = width as u64;
    let len: u64 = indices.len() as u64;
    if pos > len || len - pos < 3 * w {
        return None;
    }
    let a = read_index(indices, pos, width).unwrap();
    let b = read_index(indices, pos + w, width).unwrap();
    let c = read_index(indices, pos + 2 * w, width).unwrap();
    match (make_corner(a, def.vtx_offset), make_corner(b, def.vtx_offset), make_corner(
        c,
        def.vtx_offset,
    )) {
        (Some(a), Some(b), Some(c)) => Some(ObjRecord::Face(a, b, c)),
        _ => None,
    }
}

/// Appends the triangles of a sub-part.
fn push_faces(indices: &[u8], width: u32, def: PartDef, out: &mut Vec<ObjRecord>) -> (r: bool)
    ensures
        r <==> part_faces(indices@, width as int, def) is Some,
        r ==> final(out)@ == old(out)@ + part_faces(indices@, width as int, def).unwrap(),
{
    if def.idx_count <= 0 {
        assert(out@ =~= old(out)@ + part_faces(indices@, width as int, def).unwrap());
        return true;
    }
    let count: u32 = ((def.idx_count as u32) + 2) / 3;
    let mut t: u32 = 0;
    while t < count
        invariant
            t <= count,
            count == face_count(def),
            count < 0x4000_0000,
            forall|k: int| 0 <= k < t ==> (#[trigger] face_at(indices@, width as int, def, k))
                is Some,
            out@ == old(out)@ + Seq::new(
                t as nat,
                |k: int| face_at(indices@, width as int, def, k).unwrap(),
            ),
        decreases count - t,
    {
        match read_face(indices, width, def, t) {
            Some(face) => {
                out.push(face);
            },
            None => {
                return false;
            },
        }
        t = t + 1;
        assert(out@ =~= old(out)@ + Seq::new(
            t as nat,
            |k: int| face_at(indices@, width as int, def, k).unwrap(),
        ));
    }
    true
}

/// Appends the records of a list of sub-parts.
fn push_parts(
    indices: &[u8],
    width: u32,
    unk4c: u32,
    id: Id,
    parts: &Vec<Part>,
    out: &mut Vec<ObjRecord>,
) -> (r: bool)
    ensures
        r <==> parts_records(indices@, width as int, unk4c, id, parts@) is Some,
        r ==> final(out)@ == old(out)@ + parts_records(
            indices@,
            width as int,
            unk4c,
            id,
            parts@,
        ).unwrap(),
{
    let mut j: usize = 0;
    assert(parts@.take(0) =~= Seq::<Part>::empty());
    assert(out@ =~= old(out)@ + Seq::<ObjRecord>::empty());
    while j < parts.len()
        invariant
            j <= parts.len(),
            parts_records(indices@, width as int, unk4c, id, parts@.take(j as int)) is Some,
            out@ == old(out)@ + parts_records(
                indices@,
                width as int,
                unk4c,
                id,
                parts@.take(j as int),
            ).unwrap(),
        decreases parts.len() - j,
    {
        let part = parts[j];
        let ghost before = out@;
        out.push(ObjRecord::Group { unk4c, id, part: part.id });
        let ok = push_faces(indices, width, part.def, out);
        proof {
            let next = parts@.take(j + 1);
            assert(next.drop_last() =~= parts@.take(j as int));
            assert(next.last() == part);
            if !ok {
                lemma_parts_records_fail(indices@, width as int, unk4c, id, parts@, j + 1);
            } else {
                assert(out@ =~= old(out)@ + parts_records(
                    indices@,
                    width as int,
                    unk4c,
                    id,
                    next,
                ).unwrap());
            }
        }
        if !ok {
            return false;
        }
        j = j + 1;
    }
    assert(parts@.take(parts@.len() as int) =~= parts@);
    true
}

/// Once the records of a sub-part cannot be read, those of no longer list
/// can.
proof fn lemma_parts_records_fail(
    indices: Seq<u8>,
    width: int,
    unk4c: u32,
    id: Id,
    parts: Seq<Part>,
    n: int,
)
    requires
        0 <= n <= parts.len(),
        parts_records(indices, width, unk4c, id, parts.take(n)) is None,
    ensures
        parts_records(indices, width, unk4c, id, parts) is None,
    decreases parts.len() - n,
{
    if n < parts.len() {
        assert(parts.take(n + 1).drop_last() =~= parts.take(n));
        lemma_parts_records_fail(indices, width, unk4c, id, parts, n + 1);
    } else {
        assert(parts.take(n) =~= parts);
    }
}

/// Appends the records of the vertices of a list from index `from` on.
fn push_vertices(vertices: &Vec<Vertex>, from: usize, out: &mut Vec<ObjRecord>)
    requires
        from <= vertices@.len(),
    ensures
        final(out)@ == old(out)@ + vertex_records(vertices@.skip(from as int), from as nat),
{
    let ghost added = vertices@.skip(from as int);
    let mut j: usize = from;
    assert(added.take(0) =~= Seq::<Vertex>::empty());
    assert(out@ =~= old(out)@ + Seq::<ObjRecord>::empty());
    while j < vertices.len()
        invariant
            from <= j <= vertices.len(),
            added == vertices@.skip(from as int),
            out@ == old(out)@ + vertex_records(added.take(j - from), from as nat),
        decreases vertices.len() - j,
    {
        let v = vertices[j];
        out.push(ObjRecord::Index(j as u64 + 1));
        out.push(ObjRecord::Position(v.pos));
        out.push(ObjRecord::Texture(v.uv));
        out.push(ObjRecord::Normal(v.norm));
        proof {
            let next = added.take(j - from + 1);
            assert(next.drop_last() =~= added.take(j - from));
            assert(next.last() == v);
            assert(out@ =~= old(out)@ + vertex_records(next, from as nat));
        }
        j = j + 1;
    }
    assert(added.take(added.len() as int) =~= added);
}

/// The byte width of the indices of a level of detail.
fn width_of(lod: &MeshLod) -> (r: u32)
    ensures
        r == index_width(*lod),
{
    if lod.idx_count == 0 {
        0
    } else {
        lod.idx_size / lod.idx_count
    }
}

/// Copies `size` bytes of the GPU sidecar, `offset` bytes into the asset's
/// own region of it.
fn read_gpu(gpu: &Option<Vec<u8>>, base: u64, offset: u32, size: u32) -> (r: Result<
    Vec<u8>,
    ExtractError,
>)
    ensures
        crate::structs::same_bytes(
            r,
            sidecar_slice(source_bytes(*gpu), base + offset, size as int),
        ),
{
    match gpu {
        None => Err(ExtractError::MissingPayload),
        Some(data) => {
            let _len = data.len();
            match base.checked_add(offset as u64) {
                Some(at) => read_sidecar(gpu, at, size as u64),
                None => Err(ExtractError::MissingPayload),
            }
        },
    }
}

/// Reads level of detail `i` of a unit asset: adds its vertices to
/// `vertices` and its records to `out`.
fn read_lod(
    asset: &[u8],
    gpu: &Option<Vec<u8>>,
    d: &DataHeader,
    h: &UnitHeader,
    parts: &HashMap<i32, Vec<Part>>,
    i: usize,
    vertices: &mut Vec<Vertex>,
    out: &mut Vec<ObjRecord>,
) -> (r: Result<(), ExtractError>)
    requires
        i < h.offsets@.len(),
    ensures
        match r {
            Ok(()) => lod_step(
                asset@,
                source_bytes(*gpu),
                *d,
                h@,
                part_lists(parts@),
                i as int,
                old(vertices)@,
            ) matches Ok(step) && final(vertices)@ == step.vertices && final(out)@ == old(out)@
                + step.records,
            Err(e) => lod_step(
                asset@,
                source_bytes(*gpu),
                *d,
                h@,
                part_lists(parts@),
                i as int,
                old(vertices)@,
            ) == Err::<LodOutcome, ExtractError>(e),
        },
{
    let at: u64 = h.lod_offset as u64 + h.offsets[i] as u64 + 0x160;
    let lod = match MeshLod::parse(asset, at) {
        Some(l) => l,
        None => {
            return Err(ExtractError::Format);
        },
    };
    let vertex_payload = match read_gpu(gpu, d.gpu_data_offset, lod.vtx_offset, lod.vtx_size) {
        Ok(p) => p,
        Err(e) => {
            return Err(e);
        },
    };
    let from = vertices.len();
    match decode_vertices(vertex_payload.as_slice(), lod.stride, lod.vtx_count, vertices) {
        Ok(()) => {},
        Err(e) => {
            return Err(e);
        },
    }
    assert(vertices@.skip(from as int) =~= vertices_of(
        vertex_payload@,
        lod.stride,
        lod.vtx_count as nat,
    ).unwrap());
    let index_payload = match read_gpu(gpu, d.gpu_data_offset, lod.idx_offset, lod.idx_size) {
        Ok(p) => p,
        Err(e) => {
            return Err(e);
        },
    };
    let key: i32 = i as i32;
    let list = match parts.get(&key) {
        Some(l) => l,
        None => {
            return Err(ExtractError::Format);
        },
    };
    assert(part_lists(parts@)[key] == list@);
    push_vertices(vertices, from, out);
    if !push_parts(index_payload.as_slice(), width_of(&lod), d.unk4c, d.unk_id, list, out) {
        return Err(ExtractError::Format);
    }
    proof {
        let step = lod_step(
            asset@,
            source_bytes(*gpu),
            *d,
            h@,
            part_lists(parts@),
            i as int,
            old(vertices)@,
        );
        assert(out@ =~= old(out)@ + step->Ok_0.records);
    }
    Ok(())
}

/// Once a level of detail cannot be read, no longer run of levels can.
proof fn lemma_lods_fail(
    asset: Seq<u8>,
    gpu: Option<Seq<u8>>,
    d: DataHeader,
    h: UnitHeaderModel,
    parts: Map<i32, Seq<Part>>,
    n: nat,
    m: nat,
)
    requires
        n <= m,
        lods(asset, gpu, d, h, parts, n) is Err,
    ensures
        lods(asset, gpu, d, h, parts, m) == lods(asset, gpu, d, h, parts, n),
    decreases m - n,
{
    if n < m {
        lemma_lods_fail(asset, gpu, d, h, parts, n, (m - 1) as nat);
    }
}

/// Reconstructs the mesh of a unit asset as the records of a text mesh.
///
/// The asset's own bytes come from the bundle, its vertex and index
/// payloads from the GPU sidecar. No file name is proposed for the result.
pub fn extract_model(_cache: &IdCache, d: &DataHeader, readers: &DataReaders) -> (r: Result<
    (Vec<ObjRecord>, Option<String>),
    ExtractError,
>)
    ensures
        match r {
            Ok((records, name)) => mesh_records(readers.0@, source_bytes(readers.2), *d) == Ok::<
                Seq<ObjRecord>,
                ExtractError,
            >(records@) && name is None,
            Err(e) => mesh_records(readers.0@, source_bytes(readers.2), *d) == Err::<
                Seq<ObjRecord>,
                ExtractError,
            >(e),
        },
{
    let asset = match read_bundle(readers.bundle(), d.data_offset, d.data_size as u64) {
        Ok(a) => a,
        Err(e) => {
            return Err(e);
        },
    };
    let h = match UnitHeader::parse(asset.as_slice()) {
        Some(h) => h,
        None => {
            return Err(ExtractError::Format);
        },
    };
    let parts = match read_parts(asset.as_slice(), &h) {
        Some(p) => p,
        None => {
            return Err(ExtractError::Format);
        },
    };
    let mut mesh = Mesh { parts, vertices: Vec::new(), indices: Vec::new() };
    let mut out: Vec<ObjRecord> = Vec::new();
    let mut i: usize = 0;
    let ghost gpu = source_bytes(readers.2);
    let ghost table = part_lists(mesh.parts@);
    while i < h.offsets.len()
        invariant
            i <= h.offsets@.len(),
            gpu == source_bytes(readers.2),
            table == part_lists(mesh.parts@),
            mesh_records(readers.0@, gpu, *d) == match lods(
                asset@,
                gpu,
                *d,
                h@,
                table,
                h.offsets@.len(),
            ) {
                Err(e) => Err::<Seq<ObjRecord>, ExtractError>(e),
                Ok(all) => Ok(all.records),
            },
            lods(asset@, gpu, *d, h@, table, i as nat) matches Ok(done) && done.vertices
                == mesh.vertices@ && done.records == out@,
        decreases h.offsets@.len() - i,
    {
        match read_lod(
            asset.as_slice(),
            readers.gpu(),
            d,
            &h,
            &mesh.parts,
            i,
            &mut mesh.vertices,
            &mut out,
        ) {
            Ok(()) => {},
            Err(e) => {
                proof {
                    lemma_lods_fail(
                        asset@,
                        gpu,
                        *d,
                        h@,
                        table,
                        (i + 1) as nat,
                        h.offsets@.len(),
                    );
                }
                return Err(e);
            },
        }
        i = i + 1;
    }
    Ok((out, None))
}

/// The name of the group of a sub-part: the asset's `unk4c` in decimal, the
/// asset's identifier, and the sub-part's identifier in hexadecimal, joined
/// by underscores.
pub open spec fn group_name(unk4c: u32, id: Id, part: u32) -> Seq<char> {
    decimal_text(unk4c as nat) + seq!['_'] + id.text() + seq!['_'] + hex_text(part as nat)
}

/// One corner of a triangle: the vertex reference three times, for
/// position, texture coordinate and normal.
pub open spec fn corner_text(v: u64) -> Seq<char> {
    decimal_text(v as nat) + seq!['/'] + decimal_text(v as nat) + seq!['/'] + decimal_text(
        v as nat,
    )
}

fn push_corner(s: &mut String, v: u64)
    ensures
        final(s)@ == old(s)@ + corner_text(v),
{
    push_decimal(s, v);
    push_char(s, '/');
    push_decimal(s, v);
    push_char(s, '/');
    push_decimal(s, v);
    assert(s@ =~= old(s)@ + corner_text(v));
}

impl ObjRecord {
    /// The line of the text mesh that the record stands for, newline
    /// included, where the line holds whole numbers and names only. The
    /// records of a position, of a texture coordinate and of a normal have
    /// none here: their lines are made of numbers with a fractional part.
    pub open spec fn line_text(self) -> Option<Seq<char>> {
        match self {
            ObjRecord::Index(n) => Some(seq!['i', ' '] + decimal_text(n as nat) + seq!['\n']),
            ObjRecord::Group { unk4c, id, part } => Some(
                seq!['o', ' '] + group_name(unk4c, id, part) + seq!['\n'],
            ),
            ObjRecord::Face(a, b, c) => Some(
                seq!['f', ' '] + corner_text(a) + seq![' '] + corner_text(b) + seq![' ']
                    + corner_text(c) + seq!['\n'],
            ),
            _ => None,
        }
    }

    /// Writes the line of the record, where it has one without numbers with
    /// a fractional part.
    pub fn line(&self) -> (r: Option<String>)
        ensures
            match r {
                Some(text) => self.line_text() == Some(text@),
                None => self.line_text() is None,
            },
    {
        match self {
            ObjRecord::Index(n) => {
                let mut s = String::new();
                push_char(&mut s, 'i');
                push_char(&mut s, ' ');
                push_decimal(&mut s, *n);
                push_char(&mut s, '\n');
                assert(s@ =~= self.line_text().unwrap());
                Some(s)
            },
            ObjRecord::Group { unk4c, id, part } => {
                let mut s = String::new();
                push_char(&mut s, 'o');
                push_char(&mut s, ' ');
                push_decimal(&mut s, *unk4c as u64);
                push_char(&mut s, '_');
                crate::text::push_hex_fixed(&mut s, id._id, 16);
                push_char(&mut s, '_');
                push_hex(&mut s, *part as u64);
                push_char(&mut s, '\n');
                assert(s@ =~= self.line_text().unwrap());
                Some(s)
            },
            ObjRecord::Face(a, b, c) => {
                let mut s = String::new();
                push_char(&mut s, 'f');
                push_char(&mut s, ' ');
                push_corner(&mut s, *a);
                push_char(&mut s, ' ');
                push_corner(&mut s, *b);
                push_char(&mut s, ' ');
                push_corner(&mut s, *c);
                push_char(&mut s, '\n');
                assert(s@ =~= self.line_text().unwrap());
                Some(s)
            },
            _ => None,
        }
    }
}

/// One number with a fractional part, as the bit pattern that was read.
#[derive(Clone, Copy, Debug, PartialEq, Eq, Structural)]
pub enum Number {
    /// A single-precision number in 32 bits.
    Single(u32),
    /// A half-precision number in 16 bits.
    Half(u16),
}

/// The texts of a list of strings.
pub open spec fn texts_view(texts: Seq<String>) -> Seq<Seq<char>> {
    Seq::new(texts.len(), |i: int| texts[i]@)
}

/// A list of texts, each with a space before it.
pub open spec fn spaced(texts: Seq<Seq<char>>) -> Seq<char>
    decreases texts.len(),
{
    if texts.len() == 0 {
        Seq::empty()
    } else {
        spaced(texts.drop_last()) + seq![' '] + texts.last()
    }
}

impl ObjRecord {
    /// The numbers with a fractional part that the line of the record
    /// holds, in their order.
    pub open spec fn numbers_of(self) -> Seq<Number> {
        match self {
            ObjRecord::Position(v) => seq![
                Number::Single(v.x),
                Number::Single(v.y),
                Number::Single(v.z),
            ],
            ObjRecord::Texture(TexCoord::Half(h)) => seq![Number::Half(h.x), Number::Half(h.y)],
            ObjRecord::Texture(TexCoord::Single(v)) => seq![
                Number::Single(v.x),
                Number::Single(v.y),
            ],
            ObjRecord::Normal(n) => seq![Number::Half(n.x), Number::Half(n.y), Number::Half(n.z)],
            _ => Seq::empty(),
        }
    }

    /// The word that opens the line of the record.
    pub open spec fn keyword(self) -> Seq<char> {
        match self {
            ObjRecord::Index(_) => seq!['i'],
            ObjRecord::Position(_) => seq!['v'],
            ObjRecord::Texture(_) => seq!['v', 't'],
            ObjRecord::Normal(_) => seq!['v', 'n'],
            ObjRecord::Group { .. } => seq!['o'],
            ObjRecord::Face(_, _, _) => seq!['f'],
        }
    }

    /// The line of the record when `texts` are the texts of its numbers with
    /// a fractional part: the keyword, the texts with a space before each,
    /// and a newline. A record without such numbers has the line that it
    /// has by itself. There is no line where the texts are not as many as
    /// the numbers.
    pub open spec fn line_text_with(self, texts: Seq<Seq<char>>) -> Option<Seq<char>> {
        if texts.len() != self.numbers_of().len() {
            None
        } else {
            match self.line_text() {
                Some(line) => Some(line),
                None => Some(self.keyword() + spaced(texts) + seq!['\n']),
            }
        }
    }

    /// The numbers with a fractional part that the line of the record
    /// holds.
    pub fn numbers(&self) -> (r: Vec<Number>)
        ensures
            r@ == self.numbers_of(),
    {
        let mut out: Vec<Number> = Vec::new();
        match self {
            ObjRecord::Position(v) => {
                out.push(Number::Single(v.x));
                out.push(Number::Single(v.y));
                out.push(Number::Single(v.z));
            },
            ObjRecord::Texture(TexCoord::Half(h)) => {
                out.push(Number::Half(h.x));
                out.push(Number::Half(h.y));
            },
            ObjRecord::Texture(TexCoord::Single(v)) => {
                out.push(Number::Single(v.x));
                out.push(Number::Single(v.y));
            },
            ObjRecord::Normal(n) => {
                out.push(Number::Half(n.x));
                out.push(Number::Half(n.y));
                out.push(Number::Half(n.z));
            },
            _ => {},
        }
        assert(out@ =~= self.numbers_of());
        out
    }

    /// Writes the line of the record, given the texts of its numbers with a
    /// fractional part.
    pub fn line_with(&self, texts: &Vec<String>) -> (r: Option<String>)
        ensures
            match r {
                Some(line) => self.line_text_with(texts_view(texts@)) == Some(line@),
                None => self.line_text_with(texts_view(texts@)) is None,
            },
    {
        let wanted: usize = match self {
            ObjRecord::Position(_) => 3,
            ObjRecord::Texture(_) => 2,
            ObjRecord::Normal(_) => 3,
            _ => 0,
        };
        if texts.len() != wanted {
            return None;
        }
        match self.line() {
            Some(line) => Some(line),
            None => {
                let mut s = String::new();
                match self {
                    ObjRecord::Position(_) => {
                        push_char(&mut s, 'v');
                    },
                    ObjRecord::Texture(_) => {
                        push_char(&mut s, 'v');
                        push_char(&mut s, 't');
                    },
                    _ => {
                        push_char(&mut s, 'v');
                        push_char(&mut s, 'n');
                    },
                }
                assert(s@ =~= self.keyword());
                let ghost all = texts_view(texts@);
                let mut i: usize = 0;
                assert(all.take(0) =~= Seq::<Seq<char>>::empty());
                assert(s@ =~= self.keyword() + spaced(all.take(0)));
                while i < texts.len()
                    invariant
                        i <= texts.len(),
                        all == texts_view(texts@),
                        s@ == self.keyword() + spaced(all.take(i as int)),
                    decreases texts.len() - i,
                {
                    push_char(&mut s, ' ');
                    crate::text::push_text(&mut s, texts[i].as_str());
                    proof {
                        let next = all.take(i + 1);
                        assert(next.drop_last() =~= all.take(i as int));
                        assert(next.last() == texts@[i as int]@);
                        assert(s@ =~= self.keyword() + spaced(next));
                    }
                    i = i + 1;
                }
                assert(all.take(all.len() as int) =~= all);
                push_char(&mut s, '\n');
                assert(s@ =~= self.keyword() + spaced(all) + seq!['\n']);
                Some(s)
            },
        }
    }
}

/// A payload that can be read yields one vertex for every record that the
/// level of detail declares, whatever the stride; for a stride that is not
/// known, every one of them is the zero vertex.
pub proof fn lemma_vertex_count(payload: Seq<u8>, stride: i32, count: nat)
    ensures
        vertices_of(payload, stride, count) matches Some(list) ==> list.len() == count,
        VertexLayout::of(stride) is None ==> vertices_of(payload, stride, count) == Some(
            Seq::new(count, |i: int| Vertex::zero()),
        ),
{
}

/// The records of a list of vertices are four for each vertex, in the order
/// of the list: vertex `k` has its running number, its position, its texture
/// coordinate and its normal at the places `4 * k` to `4 * k + 3`.
pub proof fn lemma_vertex_records(vertices: Seq<Vertex>, before: nat, k: int)
    requires
        0 <= k < vertices.len(),
    ensures
        vertex_records(vertices, before).len() == 4 * vertices.len(),
        vertex_records(vertices, before)[4 * k] == ObjRecord::Index((before + k + 1) as u64),
        vertex_records(vertices, before)[4 * k + 1] == ObjRecord::Position(vertices[k].pos),
        vertex_records(vertices, before)[4 * k + 2] == ObjRecord::Texture(vertices[k].uv),
        vertex_records(vertices, before)[4 * k + 3] == ObjRecord::Normal(vertices[k].norm),
    decreases vertices.len(),
{
    lemma_vertex_records_len(vertices.drop_last(), before);
    if k < vertices.len() - 1 {
        lemma_vertex_records(vertices.drop_last(), before, k);
    }
}

proof fn lemma_vertex_records_len(vertices: Seq<Vertex>, before: nat)
    ensures
        vertex_records(vertices, before).len() == 4 * vertices.len(),
    decreases vertices.len(),
{
    if vertices.len() > 0 {
        lemma_vertex_records_len(vertices.drop_last(), before);
    }
}

/// A level of detail that can be read adds as many vertices as it declares,
/// and its records open with the four records of each of them.
pub proof fn lemma_lod_vertices(
    asset: Seq<u8>,
    gpu: Option<Seq<u8>>,
    d: DataHeader,
    h: UnitHeaderModel,
    parts: Map<i32, Seq<Part>>,
    i: int,
    seen: Seq<Vertex>,
)
    requires
        lod_step(asset, gpu, d, h, parts, i, seen) is Ok,
    ensures
        ({
            let lod = MeshLod::at(asset, h.lod_offset + h.offsets[i] + 0x160);
            let step = lod_step(asset, gpu, d, h, parts, i, seen)->Ok_0;
            let added = step.vertices.skip(seen.len() as int);
            &&& step.vertices.len() == seen.len() + lod.vtx_count
            &&& step.vertices.take(seen.len() as int) == seen
            &&& VertexLayout::of(lod.stride) is None ==> forall|k: int|
                0 <= k < added.len() ==> added[k] == Vertex::zero()
            &&& step.records.len() >= 4 * lod.vtx_count
            &&& step.records.take(4 * lod.vtx_count) == vertex_records(added, seen.len())
        }),
{
    let lod = MeshLod::at(asset, h.lod_offset + h.offsets[i] + 0x160);
    let step = lod_step(asset, gpu, d, h, parts, i, seen)->Ok_0;
    let added = step.vertices.skip(seen.len() as int);
    let vertex_payload = sidecar_slice(
        gpu,
        d.gpu_data_offset + lod.vtx_offset,
        lod.vtx_size as int,
    )->Ok_0;
    let read = vertices_of(vertex_payload, lod.stride, lod.vtx_count as nat)->0;
    assert(step.vertices == seen + read);
    assert(added =~= read);
    assert(step.vertices.take(seen.len() as int) =~= seen);
    lemma_vertex_records_len(read, seen.len());
    assert(step.records.take(4 * lod.vtx_count) =~= vertex_records(read, seen.len()));
}

} // verus!
