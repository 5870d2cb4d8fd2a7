use vstd::prelude::*;
use vstd::slice::slice_subrange;

use crate::chunks::{Chunk, ChunkPosition};
use crate::errors::{DecodeError, ErrorView};
use crate::tags::{compound_get, spec_lookup, str_eq, Compound, Tag};

verus! {

/// A region file carries up to 32 x 32 chunks.
pub const CHUNKS_PER_REGION: usize = 1024;

/// The decode result of one region file: every chunk that was
/// present, fully generated and well-formed, in slot order.
#[derive(Debug)]
pub struct Region {
    pub chunks: Vec<Chunk>,
}

/// What inflating a zlib stream yields: a function of the compressed
/// bytes alone, `None` standing for a corrupt stream.
pub uninterp spec fn zlib_inflate(data: Seq<u8>) -> Option<Seq<u8>>;

/// Relies on flate2's `read::ZlibDecoder` drained by
/// `Read::read_to_end`: inflating a byte slice deterministically
/// yields the decompressed bytes, or fails on a corrupt stream; the
/// outcome is named `zlib_inflate`.
#[verifier::external_body]
fn zlib_decompress(data: &[u8]) -> (r: Option<Vec<u8>>)
    ensures
        match r {
            Some(v) => zlib_inflate(data@) == Some(v@),
            None => zlib_inflate(data@) is None,
        },
{
    let mut decoder = flate2::read::ZlibDecoder::new(data);
    let mut decompressed = Vec::new();
    match std::io::Read::read_to_end(&mut decoder, &mut decompressed) {
        Ok(_) => Some(decompressed),
        Err(_) => None,
    }
}

/// fastnbt's decoded value type, declared so a wrapper can take it.
#[verifier::external_type_specification]
#[verifier::external_body]
pub struct ExNbtValue(fastnbt::Value);

/// Relies on the shape of fastnbt's `Value`: each arm moves one
/// variant's payload into the library's own tag type, one arm per
/// variant; the kinds the decode pipeline never consumes collapse to
/// `Tag::Other`.  `decode_nbt` below converts every parsed tree
/// through this.
#[verifier::external_body]
fn tag_of_value(v: fastnbt::Value) -> (t: Tag) {
    match v {
        fastnbt::Value::Byte(b) => Tag::Byte(b),
        fastnbt::Value::Int(n) => Tag::Int(n),
        fastnbt::Value::Long(l) => Tag::Long(l),
        fastnbt::Value::String(s) => Tag::Str(s),
        fastnbt::Value::LongArray(a) => Tag::LongArray(a.into_inner()),
        fastnbt::Value::List(l) => Tag::List(l.into_iter().map(tag_of_value).collect()),
        fastnbt::Value::Compound(c) => Tag::Compound(
            c.into_iter().map(|(k, inner)| (k, tag_of_value(inner))).collect(),
        ),
        _ => Tag::Other,
    }
}

/// Whether one byte buffer parses as a binary NBT document: a
/// function of the bytes alone.  Only the resulting tree's compound
/// entry order is not, so success carries a name while the tree
/// itself does not.
pub uninterp spec fn nbt_parses(bytes: Seq<u8>) -> bool;

/// Relies on fastnbt::from_bytes: parse one binary NBT document into
/// a tagged tree, or fail.  Whether the parse succeeds depends on
/// the bytes alone and is named `nbt_parses`; a compound's entry
/// order inside the tree follows the hash map fastnbt builds, so
/// nothing is promised of the returned tree, and every consumer
/// takes the tree as an argument and is verified for all trees.
#[verifier::external_body]
fn decode_nbt(bytes: &[u8]) -> (r: Option<Tag>)
    ensures
        r is Some <==> nbt_parses(bytes@),
{
    match fastnbt::from_bytes::<fastnbt::Value>(bytes) {
        Ok(v) => Some(tag_of_value(v)),
        Err(_) => None,
    }
}

/// What `chunk_from_tree` returns for a slot index and a decoded
/// tree: `None` for anything that is not a fully generated chunk
/// compound, the assembled chunk otherwise, and an error only when a
/// structural field is missing or mistyped.
pub open spec fn spec_chunk_from_tree(i: int, nbt: Tag) -> Result<Option<Chunk>, ErrorView> {
    match nbt {
        Tag::Compound(root) => {
            let status_skip = match spec_lookup(root@, "Status"@) {
                Some(st) => match st {
                    Tag::Str(s) => s@ != "minecraft:full"@,
                    _ => false,
                },
                None => false,
            };
            if status_skip {
                Ok(None)
            } else {
                match spec_lookup(root@, "DataVersion"@) {
                    Some(dvt) => match dvt {
                        Tag::Int(dv) => match spec_lookup(root@, "LastUpdate"@) {
                            Some(lut) => match lut {
                                Tag::Long(lu) => match spec_lookup(root@, "InhabitedTime"@) {
                                    Some(itt) => match itt {
                                        Tag::Long(it) => {
                                            let cx = match spec_lookup(root@, "xPos"@) {
                                                Some(xt) => match xt {
                                                    Tag::Int(x) => x as int,
                                                    _ => i % 32,
                                                },
                                                None => i % 32,
                                            };
                                            let cz = match spec_lookup(root@, "zPos"@) {
                                                Some(zt) => match zt {
                                                    Tag::Int(z) => z as int,
                                                    _ => i / 32,
                                                },
                                                None => i / 32,
                                            };
                                            Ok(
                                                Some(
                                                    Chunk {
                                                        data_version: dv,
                                                        last_update: lu,
                                                        inhabited_time: it,
                                                        position: ChunkPosition {
                                                            x: cx as i32,
                                                            z: cz as i32,
                                                        },
                                                        nbt,
                                                    },
                                                ),
                                            )
                                        },
                                        _ => Err(
                                            ErrorView::WrongTag {
                                                key: "InhabitedTime"@,
                                                found: Some(itt.kind_spec()),
                                            },
                                        ),
                                    },
                                    None => Err(
                                        ErrorView::WrongTag { key: "InhabitedTime"@, found: None },
                                    ),
                                },
                                _ => Err(
                                    ErrorView::WrongTag {
                                        key: "LastUpdate"@,
                                        found: Some(lut.kind_spec()),
                                    },
                                ),
                            },
                            None => Err(ErrorView::WrongTag { key: "LastUpdate"@, found: None }),
                        },
                        _ => Err(
                            ErrorView::WrongTag {
                                key: "DataVersion"@,
                                found: Some(dvt.kind_spec()),
                            },
                        ),
                    },
                    None => Err(ErrorView::WrongTag { key: "DataVersion"@, found: None }),
                }
            }
        },
        _ => Ok(None),
    }
}

/// Assembling a chunk fails only structurally: every error
/// `spec_chunk_from_tree` can produce names a key and its kind.
pub proof fn lemma_chunk_from_tree_err_is_wrong_tag(i: int, nbt: Tag)
    ensures
        spec_chunk_from_tree(i, nbt) matches Err(e) ==> e is WrongTag,
{
}

/// Assemble a chunk from its decoded tree.  A tree whose root is not
/// a compound, or whose `Status` says it is only partly generated,
/// yields no chunk; missing or mistyped structural fields are hard
/// errors; missing coordinates fall back to the slot's position in
/// the 32 x 32 grid.
pub fn chunk_from_tree(i: i32, nbt: Tag) -> (r: Result<Option<Chunk>, DecodeError>)
    requires
        0 <= i < 1024,
    ensures
        match r {
            Ok(opt) => spec_chunk_from_tree(i as int, nbt) == Ok::<Option<Chunk>, ErrorView>(opt),
            Err(e) => spec_chunk_from_tree(i as int, nbt) == Err::<Option<Chunk>, ErrorView>(e@),
        },
{
    let data_version: i32;
    let last_update: i64;
    let inhabited_time: i64;
    let chunk_x: i32;
    let chunk_z: i32;

    match &nbt {
        Tag::Compound(root) => {
            match compound_get(root, "Status") {
                Some(t) => {
                    match t {
                        Tag::Str(status) => {
                            if !str_eq(status.as_str(), "minecraft:full") {
                                return Ok(None);
                            }
                        },
                        _ => {},
                    }
                },
                None => {},
            }

            data_version = match compound_get(root, "DataVersion") {
                Some(t) => {
                    match t {
                        Tag::Int(v) => *v,
                        _ => {
                            return Err(
                                DecodeError::WrongTag {
                                    key: "DataVersion".to_owned(),
                                    found: Some(t.kind()),
                                },
                            );
                        },
                    }
                },
                None => {
                    return Err(DecodeError::WrongTag { key: "DataVersion".to_owned(), found: None });
                },
            };

            last_update = match compound_get(root, "LastUpdate") {
                Some(t) => {
                    match t {
                        Tag::Long(v) => *v,
                        _ => {
                            return Err(
                                DecodeError::WrongTag {
                                    key: "LastUpdate".to_owned(),
                                    found: Some(t.kind()),
                                },
                            );
                        },
                    }
                },
                None => {
                    return Err(DecodeError::WrongTag { key: "LastUpdate".to_owned(), found: None });
                },
            };

            inhabited_time = match compound_get(root, "InhabitedTime") {
                Some(t) => {
                    match t {
                        Tag::Long(v) => *v,
                        _ => {
                            return Err(
                                DecodeError::WrongTag {
                                    key: "InhabitedTime".to_owned(),
                                    found: Some(t.kind()),
                                },
                            );
                        },
                    }
                },
                None => {
                    return Err(
                        DecodeError::WrongTag { key: "InhabitedTime".to_owned(), found: None },
                    );
                },
            };

            chunk_x = match compound_get(root, "xPos") {
                Some(t) => {
                    match t {
                        Tag::Int(v) => *v,
                        _ => ((i as u32) % 32) as i32,
                    }
                },
                None => ((i as u32) % 32) as i32,
            };

            chunk_z = match compound_get(root, "zPos") {
                Some(t) => {
                    match t {
                        Tag::Int(v) => *v,
                        _ => ((i as u32) / 32) as i32,
                    }
                },
                None => ((i as u32) / 32) as i32,
            };
        },
        _ => {
            return Ok(None);
        },
    }

    Ok(
        Some(
            Chunk {
                data_version,
                last_update,
                inhabited_time,
                position: ChunkPosition { x: chunk_x, z: chunk_z },
                nbt,
            },
        ),
    )
}

/// Decode one chunk slot's decompressed payload.  A payload that
/// fails to parse as a tagged tree yields no chunk rather than an
/// error: one corrupt chunk must not fail the whole region.
pub fn parse_chunk_from_bytes(i: i32, bytes: Vec<u8>) -> (r: Result<Option<Chunk>, DecodeError>)
    requires
        0 <= i < 1024,
    ensures
        match r {
            Ok(opt) => match opt {
                Some(c) => nbt_parses(bytes@) && exists|t: Tag|
                    #[trigger] spec_chunk_from_tree(i as int, t) == Ok::<Option<Chunk>, ErrorView>(
                        Some(c),
                    ),
                None => !nbt_parses(bytes@) || exists|t: Tag|
                    #[trigger] spec_chunk_from_tree(i as int, t) == Ok::<Option<Chunk>, ErrorView>(
                        None,
                    ),
            },
            Err(e) => nbt_parses(bytes@) && exists|t: Tag|
                #[trigger] spec_chunk_from_tree(i as int, t) == Err::<Option<Chunk>, ErrorView>(e@),
        },
        !nbt_parses(bytes@) ==> (r matches Ok(opt) && opt is None),
{
    let tree = match decode_nbt(bytes.as_slice()) {
        Some(t) => t,
        None => {
            return Ok(None);
        },
    };
    let ghost gtree = tree;
    let r = chunk_from_tree(i, tree);
    proof {
        if r is Ok {
            let opt = r->Ok_0;
            assert(spec_chunk_from_tree(i as int, gtree) == Ok::<Option<Chunk>, ErrorView>(opt));
            if opt is Some {
                let c = opt.unwrap();
                assert(spec_chunk_from_tree(i as int, gtree) == Ok::<Option<Chunk>, ErrorView>(
                    Some(c),
                ));
                assert(exists|t: Tag|
                    #[trigger] spec_chunk_from_tree(i as int, t) == Ok::<Option<Chunk>, ErrorView>(
                        Some(c),
                    ));
            } else {
                assert(spec_chunk_from_tree(i as int, gtree) == Ok::<Option<Chunk>, ErrorView>(
                    None,
                ));
                assert(exists|t: Tag|
                    #[trigger] spec_chunk_from_tree(i as int, t) == Ok::<Option<Chunk>, ErrorView>(
                        None,
                    ));
            }
        } else {
            let e = r->Err_0;
            assert(spec_chunk_from_tree(i as int, gtree) == Err::<Option<Chunk>, ErrorView>(e@));
            assert(exists|t: Tag|
                #[trigger] spec_chunk_from_tree(i as int, t) == Err::<Option<Chunk>, ErrorView>(
                    e@,
                ));
        }
    }
    r
}

/// The 3-byte big-endian sector offset of slot `i` in the header.
pub open spec fn spec_slot_offset(data: Seq<u8>, i: int) -> int {
    (data[4 * i] as int) * 0x10000 + (data[4 * i + 1] as int) * 0x100 + (data[4 * i + 2] as int)
}

/// The 1-byte sector count of slot `i` in the header.
pub open spec fn spec_slot_sector_count(data: Seq<u8>, i: int) -> int {
    data[4 * i + 3] as int
}

/// A slot holds a chunk only when both its offset and its sector
/// count are nonzero.
pub open spec fn spec_slot_present(data: Seq<u8>, i: int) -> bool {
    spec_slot_offset(data, i) != 0 && spec_slot_sector_count(data, i) != 0
}

/// The 4-byte big-endian payload length recorded at slot `i`'s
/// sector, marker byte included.
pub open spec fn spec_slot_length(data: Seq<u8>, i: int) -> int {
    let bo = spec_slot_offset(data, i) * 4096;
    (data[bo] as int) * 0x1000000 + (data[bo + 1] as int) * 0x10000 + (data[bo + 2] as int) * 0x100
        + (data[bo + 3] as int)
}

/// The compression marker byte of slot `i`.
pub open spec fn spec_slot_compression(data: Seq<u8>, i: int) -> int {
    data[spec_slot_offset(data, i) * 4096 + 4] as int
}

/// A slot the parser actually decompresses: present, its five-byte
/// frame and its payload inside the buffer, a nonzero recorded
/// length, and the zlib marker.  Every other slot is skipped without
/// touching the outside world.
pub open spec fn spec_slot_active(data: Seq<u8>, i: int) -> bool {
    &&& spec_slot_present(data, i)
    &&& spec_slot_offset(data, i) * 4096 + 5 <= data.len()
    &&& spec_slot_length(data, i) > 0
    &&& spec_slot_offset(data, i) * 4096 + 5 + (spec_slot_length(data, i) - 1) <= data.len()
    &&& spec_slot_compression(data, i) == 2
}

/// The compressed bytes of slot `i`: what sits between its marker
/// byte and the end of its recorded length.
pub open spec fn spec_slot_payload(data: Seq<u8>, i: int) -> Seq<u8> {
    let start = spec_slot_offset(data, i) * 4096 + 5;
    data.subrange(start, start + spec_slot_length(data, i) - 1)
}

/// A chunk really decoded from slot `s`: some tree assembles to
/// exactly it at that slot.
pub open spec fn spec_chunk_decoded_at(s: int, c: Chunk) -> bool {
    exists|t: Tag|
        #[trigger] spec_chunk_from_tree(s, t) == Ok::<Option<Chunk>, ErrorView>(Some(c))
}

/// A chunk really decoded: some slot's tree assembles to exactly it.
pub open spec fn spec_chunk_decoded(c: Chunk) -> bool {
    exists|s: int| 0 <= s < 1024 && #[trigger] spec_chunk_decoded_at(s, c)
}

/// The chunks keep the container's order: chunk `k` decodes from
/// slot `slots[k]`, and the slots strictly increase.
pub open spec fn spec_chunks_in_slot_order(chunks: Seq<Chunk>, slots: Seq<int>) -> bool {
    &&& slots.len() == chunks.len()
    &&& forall|k: int| 0 <= k < slots.len() ==> 0 <= #[trigger] slots[k] < 1024
    &&& forall|k: int| 0 <= k < slots.len() ==> spec_chunk_decoded_at(
        #[trigger] slots[k],
        chunks[k],
    )
    &&& forall|k1: int, k2: int|
        0 <= k1 < k2 < slots.len() ==> #[trigger] slots[k1] < #[trigger] slots[k2]
}

/// Decode a whole region file: walk the 1024 header slots in order,
/// decompress each present zlib chunk payload, and keep every fully
/// generated chunk that decodes.  Empty slots, foreign compression
/// markers, out-of-range slot extents and undecodable payloads are
/// skipped; a truncated file, a corrupt zlib stream or a chunk with
/// broken structural fields fails the whole region.
#[verifier::loop_isolation(false)]
pub fn parse_region_bytes(data: &[u8]) -> (r: Result<Region, DecodeError>)
    ensures
        data@.len() < 8192 ==> (r matches Err(e) && e@ == (ErrorView::TruncatedRegion {
            len: data@.len() as int,
        })),
        r matches Ok(reg) ==> reg.chunks@.len() <= 1024 && (forall|k: int|
            0 <= k < reg.chunks@.len() ==> spec_chunk_decoded(#[trigger] reg.chunks@[k])) && (
        exists|slots: Seq<int>| #[trigger] spec_chunks_in_slot_order(reg.chunks@, slots)),
        r matches Ok(reg) ==> (forall|j: int|
            0 <= j < 1024 && #[trigger] spec_slot_active(data@, j) ==> zlib_inflate(
                spec_slot_payload(data@, j),
            ) is Some),
        r matches Err(e) ==> (e@ matches ErrorView::CorruptCompressedChunk { slot } ==> 0 <= slot
            < 1024 && spec_slot_active(data@, slot) && zlib_inflate(spec_slot_payload(data@, slot))
            is None),
        r matches Err(e) ==> {
            ||| (data@.len() < 8192 && e@ == (ErrorView::TruncatedRegion {
                len: data@.len() as int,
            }))
            ||| (e@ matches ErrorView::CorruptCompressedChunk { slot } && 0 <= slot < 1024
                && spec_slot_active(data@, slot) && zlib_inflate(spec_slot_payload(data@, slot))
                is None)
            ||| (e@ is WrongTag && exists|s: int, t: Tag|
                0 <= s < 1024 && #[trigger] spec_chunk_from_tree(s, t) == Err::<
                    Option<Chunk>,
                    ErrorView,
                >(e@))
        },
        (data@.len() >= 8192 && (forall|j: int| 0 <= j < 1024 ==> !spec_slot_active(data@, j)))
            ==> (r matches Ok(reg) && reg.chunks@.len() == 0),
{
    if data.len() < 8192 {
        return Err(DecodeError::TruncatedRegion { len: data.len() });
    }

    let mut chunks: Vec<Chunk> = Vec::new();
    let mut i: usize = 0;
    let ghost mut slot_trace: Seq<int> = Seq::empty();

    while i < CHUNKS_PER_REGION
        invariant
            i <= 1024,
            data@.len() >= 8192,
            chunks@.len() <= i,
            forall|k: int| 0 <= k < chunks@.len() ==> spec_chunk_decoded(#[trigger] chunks@[k]),
            spec_chunks_in_slot_order(chunks@, slot_trace),
            forall|k: int| 0 <= k < slot_trace.len() ==> #[trigger] slot_trace[k] < i,
            forall|j: int|
                0 <= j < i && #[trigger] spec_slot_active(data@, j) ==> zlib_inflate(
                    spec_slot_payload(data@, j),
                ) is Some,
            (forall|j: int| 0 <= j < i ==> !spec_slot_active(data@, j)) ==> chunks@.len() == 0,
        decreases 1024 - i,
    {
        let idx = i * 4;
        let b0 = data[idx] as u32;
        let b1 = data[idx + 1] as u32;
        let b2 = data[idx + 2] as u32;
        let offset = b0 * 65536 + b1 * 256 + b2;
        let sector_count = data[idx + 3];
        proof {
            assert(offset as int == spec_slot_offset(data@, i as int));
            assert(sector_count as int == spec_slot_sector_count(data@, i as int));
            if offset != 0 && sector_count != 0 {
                assert(spec_slot_present(data@, i as int));
            }
        }

        if offset == 0 || sector_count == 0 {
            proof {
                assert(!spec_slot_active(data@, i as int));
            }
            i += 1;
            continue ;
        }

        let byte_offset = (offset as u64) * 4096;
        if byte_offset + 5 > data.len() as u64 {
            proof {
                assert(!spec_slot_active(data@, i as int));
            }
            i += 1;
            continue ;
        }
        let bo = byte_offset as usize;

        let l0 = data[bo] as u32;
        let l1 = data[bo + 1] as u32;
        let l2 = data[bo + 2] as u32;
        let l3 = data[bo + 3] as u32;
        let length = ((l0 * 16777216) as u64 + (l1 * 65536 + l2 * 256 + l3) as u64) as u32;
        let compression_type = data[bo + 4];
        proof {
            assert(bo as int == spec_slot_offset(data@, i as int) * 4096);
            assert(length as int == spec_slot_length(data@, i as int));
            assert(compression_type as int == spec_slot_compression(data@, i as int));
        }

        if length == 0 {
            proof {
                assert(!spec_slot_active(data@, i as int));
            }
            i += 1;
            continue ;
        }

        let data_start = byte_offset + 5;
        let data_end = data_start + (length - 1) as u64;
        if data_end > data.len() as u64 {
            proof {
                assert(!spec_slot_active(data@, i as int));
            }
            i += 1;
            continue ;
        }

        if compression_type != 2 {
            proof {
                assert(!spec_slot_active(data@, i as int));
            }
            i += 1;
            continue ;
        }

        let compressed = slice_subrange(data, data_start as usize, data_end as usize);
        proof {
            assert(spec_slot_active(data@, i as int));
            assert(compressed@ =~= spec_slot_payload(data@, i as int));
        }
        let chunk_data = match zlib_decompress(compressed) {
            Some(v) => v,
            None => {
                proof {
                    assert(zlib_inflate(spec_slot_payload(data@, i as int)) is None);
                }
                return Err(DecodeError::CorruptCompressedChunk { slot: i });
            },
        };
        proof {
            assert(zlib_inflate(spec_slot_payload(data@, i as int)) is Some);
        }

        let maybe_chunk = match parse_chunk_from_bytes(i as i32, chunk_data) {
            Ok(v) => v,
            Err(e) => {
                proof {
                    let t0 = choose|t: Tag|
                        spec_chunk_from_tree(i as int, t) == Err::<Option<Chunk>, ErrorView>(e@);
                    assert(spec_chunk_from_tree(i as int, t0) == Err::<Option<Chunk>, ErrorView>(
                        e@,
                    ));
                    lemma_chunk_from_tree_err_is_wrong_tag(i as int, t0);
                    assert(exists|s: int, t: Tag|
                        0 <= s < 1024 && #[trigger] spec_chunk_from_tree(s, t) == Err::<
                            Option<Chunk>,
                            ErrorView,
                        >(e@));
                }
                return Err(e);
            },
        };
        match maybe_chunk {
            Some(c) => {
                proof {
                    assert(spec_chunk_decoded_at(i as int, c));
                    assert(spec_chunk_decoded(c));
                    slot_trace = slot_trace.push(i as int);
                }
                chunks.push(c);
            },
            None => {},
        }

        i += 1;
    }

    proof {
        assert(spec_chunks_in_slot_order(chunks@, slot_trace));
        assert(exists|slots: Seq<int>| #[trigger] spec_chunks_in_slot_order(chunks@, slots));
    }
    Ok(Region { chunks })
}

} // verus!
