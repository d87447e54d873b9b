use vstd::prelude::*;
use crate::filesystem::disk::Disk;
use crate::filesystem::fat32::{Fat32, FsError, geometry_ok};

verus! {

// ---------------------------------------------------------------------------
// Little-endian fields of on-disk structures.

/// The little-endian 16-bit value at `i`.
pub open spec fn le16(b: Seq<u8>, i: int) -> u16 {
    (b[i] + 256 * b[i + 1]) as u16
}

/// The little-endian 32-bit value at `i`.
pub open spec fn le32(b: Seq<u8>, i: int) -> u32 {
    (b[i] + 256 * b[i + 1] + 65536 * b[i + 2] + 16777216 * b[i + 3]) as u32
}

/// The two bytes of `v`, least significant first.
pub open spec fn u16_bytes(v: u16) -> Seq<u8> {
    seq![(v % 256) as u8, (v / 256) as u8]
}

/// The four bytes of `v`, least significant first.
pub open spec fn u32_bytes(v: u32) -> Seq<u8> {
    seq![(v % 256) as u8, ((v / 256) % 256) as u8, ((v / 65536) % 256) as u8, (v / 16777216) as u8]
}

/// Reading back the two bytes of a 16-bit value gives the value.
pub proof fn lemma_le16_of_bytes(v: u16)
    ensures
        le16(u16_bytes(v), 0) == v,
{
}

/// Writing out a 16-bit value read from bytes gives those bytes.
pub proof fn lemma_bytes_of_le16(b: Seq<u8>, i: int)
    requires
        0 <= i,
        i + 2 <= b.len(),
    ensures
        u16_bytes(le16(b, i)) == b.subrange(i, i + 2),
{
    assert(u16_bytes(le16(b, i)) =~= b.subrange(i, i + 2));
}

/// Writing out a 32-bit value read from bytes gives those bytes.
pub proof fn lemma_bytes_of_le32(b: Seq<u8>, i: int)
    requires
        0 <= i,
        i + 4 <= b.len(),
    ensures
        u32_bytes(le32(b, i)) == b.subrange(i, i + 4),
{
    let (b0, b1, b2, b3) = (b[i] as int, b[i + 1] as int, b[i + 2] as int, b[i + 3] as int);
    let v = le32(b, i) as int;
    assert(v == b0 + 256 * b1 + 65536 * b2 + 16777216 * b3);
    vstd::arithmetic::div_mod::lemma_fundamental_div_mod_converse(v, 256, b1 + 256 * b2 + 65536 * b3, b0);
    vstd::arithmetic::div_mod::lemma_fundamental_div_mod_converse(b1 + 256 * b2 + 65536 * b3, 256, b2 + 256 * b3, b1);
    vstd::arithmetic::div_mod::lemma_fundamental_div_mod_converse(v, 65536, b2 + 256 * b3, b0 + 256 * b1);
    vstd::arithmetic::div_mod::lemma_fundamental_div_mod_converse(b2 + 256 * b3, 256, b3, b2);
    vstd::arithmetic::div_mod::lemma_fundamental_div_mod_converse(v, 16777216, b3, b0 + 256 * b1 + 65536 * b2);
    assert(u32_bytes(le32(b, i)) =~= b.subrange(i, i + 4));
}

/// Reading back the four bytes of a 32-bit value gives the value.
pub proof fn lemma_le32_of_bytes(v: u32)
    ensures
        le32(u32_bytes(v), 0) == v,
{
}

/// Reads the little-endian 16-bit value at `at`.
pub fn read_u16(b: &[u8], at: usize) -> (r: u16)
    requires
        at + 2 <= b@.len(),
    ensures
        r == le16(b@, at as int),
{
    b[at] as u16 + (b[at + 1] as u16) * 256
}

/// Reads the little-endian 32-bit value at `at`.
pub fn read_u32(b: &[u8], at: usize) -> (r: u32)
    requires
        at + 4 <= b@.len(),
    ensures
        r == le32(b@, at as int),
{
    b[at] as u32 + (b[at + 1] as u32) * 256 + (b[at + 2] as u32) * 65536 + (b[at + 3] as u32)
        * 16777216
}

// ---------------------------------------------------------------------------
// The boot sector.

/// The BIOS parameter block at the start of a FAT volume.
#[derive(Debug, Clone, Copy)]
pub struct Bpb {
    pub skip_code: [u8; 3],
    pub oem_identifier: [u8; 8],
    pub bytes_per_sector: u16,
    pub sectors_per_cluster: u8,
    pub reserved_sectors_count: u16,
    pub table_count: u8,
    pub root_entry_count: u16,
    pub total_sectors: u16,
    pub media_descriptor_type: u8,
    pub sectors_per_fat: u16,
    pub sectors_per_track: u16,
    pub head_size_count: u16,
    pub hidden_sectors_count: u32,
    pub total_sectors_large: u32,
}

/// The FAT32 extended BIOS parameter block, which follows the BPB.
#[derive(Debug, Clone, Copy)]
pub struct Ebpb {
    pub bpb: Bpb,
    pub sectors_per_fat: u32,
    pub flags: u16,
    pub version_number: u16,
    pub root_dir_cluster: u32,
    pub fsinfo_sector: u16,
    pub backup_mbr_sector: u16,
    pub reserved: [u8; 12],
    pub drive_number: u8,
    pub flags_nt: u8,
    pub signature: u8,
    pub volume_id: u32,
    pub volume_label: [u8; 11],
    pub system_identifier: [u8; 8],
}

/// Bytes of the packed BPB and EBPB at the start of the boot sector.
pub const EBPB_SIZE: usize = 90;

/// The EBPB holds the fields of the boot sector `b` at their offsets.
pub open spec fn ebpb_of(e: Ebpb, b: Seq<u8>) -> bool {
    &&& e.bpb.skip_code@ == b.subrange(0, 3)
    &&& e.bpb.oem_identifier@ == b.subrange(3, 11)
    &&& e.bpb.bytes_per_sector == le16(b, 11)
    &&& e.bpb.sectors_per_cluster == b[13]
    &&& e.bpb.reserved_sectors_count == le16(b, 14)
    &&& e.bpb.table_count == b[16]
    &&& e.bpb.root_entry_count == le16(b, 17)
    &&& e.bpb.total_sectors == le16(b, 19)
    &&& e.bpb.media_descriptor_type == b[21]
    &&& e.bpb.sectors_per_fat == le16(b, 22)
    &&& e.bpb.sectors_per_track == le16(b, 24)
    &&& e.bpb.head_size_count == le16(b, 26)
    &&& e.bpb.hidden_sectors_count == le32(b, 28)
    &&& e.bpb.total_sectors_large == le32(b, 32)
    &&& e.sectors_per_fat == le32(b, 36)
    &&& e.flags == le16(b, 40)
    &&& e.version_number == le16(b, 42)
    &&& e.root_dir_cluster == le32(b, 44)
    &&& e.fsinfo_sector == le16(b, 48)
    &&& e.backup_mbr_sector == le16(b, 50)
    &&& e.reserved@ == b.subrange(52, 64)
    &&& e.drive_number == b[64]
    &&& e.flags_nt == b[65]
    &&& e.signature == b[66]
    &&& e.volume_id == le32(b, 67)
    &&& e.volume_label@ == b.subrange(71, 82)
    &&& e.system_identifier@ == b.subrange(82, 90)
}

impl Ebpb {
    /// Reads the BPB and EBPB from the start of the boot sector.
    pub fn parse(b: &[u8]) -> (r: Ebpb)
        requires
            b@.len() >= EBPB_SIZE,
        ensures
            ebpb_of(r, b@),
    {
        let bpb = Bpb {
            skip_code: [b[0], b[1], b[2]],
            oem_identifier: [b[3], b[4], b[5], b[6], b[7], b[8], b[9], b[10]],
            bytes_per_sector: read_u16(b, 11),
            sectors_per_cluster: b[13],
            reserved_sectors_count: read_u16(b, 14),
            table_count: b[16],
            root_entry_count: read_u16(b, 17),
            total_sectors: read_u16(b, 19),
            media_descriptor_type: b[21],
            sectors_per_fat: read_u16(b, 22),
            sectors_per_track: read_u16(b, 24),
            head_size_count: read_u16(b, 26),
            hidden_sectors_count: read_u32(b, 28),
            total_sectors_large: read_u32(b, 32),
        };
        let r = Ebpb {
            bpb,
            sectors_per_fat: read_u32(b, 36),
            flags: read_u16(b, 40),
            version_number: read_u16(b, 42),
            root_dir_cluster: read_u32(b, 44),
            fsinfo_sector: read_u16(b, 48),
            backup_mbr_sector: read_u16(b, 50),
            reserved: [b[52], b[53], b[54], b[55], b[56], b[57], b[58], b[59], b[60], b[61], b[62], b[63]],
            drive_number: b[64],
            flags_nt: b[65],
            signature: b[66],
            volume_id: read_u32(b, 67),
            volume_label: [b[71], b[72], b[73], b[74], b[75], b[76], b[77], b[78], b[79], b[80], b[81]],
            system_identifier: [b[82], b[83], b[84], b[85], b[86], b[87], b[88], b[89]],
        };
        assert(r.bpb.skip_code@ =~= b@.subrange(0, 3));
        assert(r.bpb.oem_identifier@ =~= b@.subrange(3, 11));
        assert(r.reserved@ =~= b@.subrange(52, 64));
        assert(r.volume_label@ =~= b@.subrange(71, 82));
        assert(r.system_identifier@ =~= b@.subrange(82, 90));
        r
    }
}

// ---------------------------------------------------------------------------
// Entries of the file allocation table.

/// What an entry of the file allocation table says of the cluster after.
#[derive(PartialEq, Eq, Structural, Debug, Copy, Clone)]
pub enum FatEntry {
    Node(Cluster),
    End,
    BadBlock,
}

/// A cluster number.
#[derive(PartialEq, Eq, Structural, Debug, Copy, Clone)]
pub struct Cluster(pub usize);

/// The meaning of a raw table value: its low 28 bits are the next cluster,
/// from 0x0FFFFFF8 on they end the chain, and 0x0FFFFFF7 marks a bad cluster.
pub open spec fn classify_spec(raw: u32) -> FatEntry {
    let value = raw & 0x0FFFFFFF;
    if value >= 0x0FFFFFF8 {
        FatEntry::End
    } else if value == 0x0FFFFFF7 {
        FatEntry::BadBlock
    } else {
        FatEntry::Node(Cluster(value as usize))
    }
}

/// Reads a raw table value.
pub fn classify_entry(raw: u32) -> (r: FatEntry)
    ensures
        r == classify_spec(raw),
{
    let table_value = raw & 0x0FFFFFFF;
    if table_value >= 0x0FFFFFF8 {
        FatEntry::End
    } else if table_value == 0x0FFFFFF7 {
        FatEntry::BadBlock
    } else {
        FatEntry::Node(Cluster(table_value as usize))
    }
}

/// The entry at byte `offset` of a sector of the table.
pub fn entry_in_sector(sector: &[u8], offset: usize) -> (r: FatEntry)
    requires
        offset + 4 <= sector@.len(),
    ensures
        r == classify_spec(le32(sector@, offset as int)),
{
    classify_entry(read_u32(sector, offset))
}


/// A chain that has not ended after this many clusters is cut off: a volume
/// has fewer clusters than that, so only a chain that runs in a circle gets there.
pub const MAX_CHAIN_LENGTH: u32 = 0x0FFF_FFF7;

/// The sector of the table that holds the entry of `cluster`.
pub open spec fn fat_sector_of(e: Ebpb, cluster: int) -> int {
    e.bpb.reserved_sectors_count + (cluster * 4) / (e.bpb.bytes_per_sector as int)
}

/// The byte within that sector where the entry starts.
pub open spec fn fat_offset_of(e: Ebpb, cluster: int) -> int {
    (cluster * 4) % (e.bpb.bytes_per_sector as int)
}

/// The entry of `cluster` in the table on `disk`: the little-endian value at
/// its offset in the table sector that holds it, as a sector-sized read gives it.
pub open spec fn table_entry<D: Disk>(fs: Fat32, disk: &D, cluster: int) -> FatEntry {
    let e = fs.ebpb_view();
    classify_spec(
        le32(
            disk.read_view(fat_sector_of(e, cluster) as u64, e.bpb.bytes_per_sector as nat),
            fat_offset_of(e, cluster),
        ),
    )
}

/// Walks the chain of clusters of a file or folder through the table.
pub struct ClusterChain<'a, D: Disk> {
    current_entry: FatEntry,
    fat: &'a Fat32,
    drive: &'a D,
    remaining: u32,
}

impl<'a, D: Disk> ClusterChain<'a, D> {
    /// What the chain holds next.
    pub closed spec fn entry(&self) -> FatEntry {
        self.current_entry
    }

    /// How many more clusters the chain may yield before it is cut off.
    pub closed spec fn fuel(&self) -> u32 {
        self.remaining
    }

    /// The filesystem whose table the chain follows.
    pub closed spec fn fat_view(&self) -> Fat32 {
        *self.fat
    }

    /// The disk the table is read from.
    pub closed spec fn drive_view(&self) -> &'a D {
        self.drive
    }

    /// The chain that starts with `cluster`.
    pub fn new(cluster: Cluster, fat: &'a Fat32, drive: &'a D) -> (r: Self)
        ensures
            r.entry() == FatEntry::Node(cluster),
            r.fuel() == MAX_CHAIN_LENGTH,
            r.fat_view() == *fat,
            r.drive_view() == drive,
    {
        ClusterChain { current_entry: FatEntry::Node(cluster), fat, drive, remaining: MAX_CHAIN_LENGTH }
    }

    /// Reads the table entry of `current` from the disk.
    fn read_entry(&self, current: Cluster) -> (r: Result<FatEntry, FsError>)
        requires
            geometry_ok(self.fat.ebpb_view()),
        ensures
            (r == Err::<FatEntry, FsError>(FsError::BadCluster)) == (current.0 > usize::MAX / 4),
            r matches Err(e) ==> e == FsError::BadCluster || e == FsError::DiskRead,
            r matches Ok(e) ==> e == table_entry(*self.fat, self.drive, current.0 as int),
    {
        let sector_size = self.fat.ebpb.bpb.bytes_per_sector as usize;
        if current.0 > usize::MAX / 4 {
            return Err(FsError::BadCluster);
        }
        // each entry is 4 bytes
        let fat_offset = current.0 * 4;
        let ent_offset = fat_offset % sector_size;
        proof {
            let ss = sector_size as int;
            let fo = fat_offset as int;
            let q = ss / 4;
            assert(ss == 4 * q);
            vstd::arithmetic::div_mod::lemma_mod_mod(fo, 4, q);
            assert(fo % ss == ent_offset);
            assert(fo % 4 == 0);
            assert(ent_offset % 4 == 0);
            assert(ent_offset < ss);
            assert(ent_offset + 4 <= sector_size);
            vstd::arithmetic::div_mod::lemma_div_is_ordered_by_denominator(fo, 4, ss);
            assert(fo / 4 == current.0);
        }
        let fat_sector = self.fat.ebpb.bpb.reserved_sectors_count as usize + (fat_offset
            / sector_size);
        let mut fat_table = vec![0u8; sector_size];
        match self.drive.read(fat_sector as u64, fat_table.as_mut_slice()) {
            Ok(_) => {
                let entry = entry_in_sector(fat_table.as_slice(), ent_offset);
                Ok(entry)
            },
            Err(_) => Err(FsError::DiskRead),
        }
    }

    /// The next cluster of the chain, reading the table to find the one after.
    /// The chain ends at an end mark or a bad cluster, and is cut off after
    /// `MAX_CHAIN_LENGTH` clusters.
    pub fn next(&mut self) -> (r: Result<Option<Cluster>, FsError>)
        requires
            geometry_ok(old(self).fat_view().ebpb_view()),
        ensures
            final(self).fat_view() == old(self).fat_view(),
            final(self).drive_view() == old(self).drive_view(),
            final(self).fuel() <= old(self).fuel(),
            old(self).entry() matches FatEntry::Node(c) ==> old(self).fuel() > 0 ==> {
                &&& c.0 > usize::MAX / 4 ==> r is Err
                &&& r matches Ok(Some(_)) ==> c.0 <= usize::MAX / 4 && final(self).entry()
                    == table_entry(old(self).fat_view(), old(self).drive_view(), c.0 as int)
            },
            r == Ok::<Option<Cluster>, FsError>(None) ==> final(self).fuel() == old(self).fuel()
                && final(self).entry() == old(self).entry(),
            r matches Err(e) ==> e == FsError::DiskRead || (e == FsError::BadCluster
                && old(self).fuel() > 0 && (old(self).entry() matches FatEntry::Node(c) && c.0
                > usize::MAX / 4)),
            match old(self).entry() {
                FatEntry::Node(c) => if old(self).fuel() > 0 {
                    match r {
                        Ok(Some(x)) => x == c && final(self).fuel() == old(self).fuel() - 1,
                        Ok(None) => false,
                        Err(_) => true,
                    }
                } else {
                    r == Ok::<Option<Cluster>, FsError>(None)
                },
                _ => r == Ok::<Option<Cluster>, FsError>(None),
            },
    {
        let current_index = match self.current_entry {
            FatEntry::Node(current_cluster) => current_cluster,
            _ => {
                return Ok(None);
            },
        };
        if self.remaining == 0 {
            return Ok(None);
        }
        let next_entry = match self.read_entry(current_index) {
            Ok(entry) => entry,
            Err(e) => {
                return Err(e);
            },
        };
        self.current_entry = next_entry;
        self.remaining = self.remaining - 1;
        Ok(Some(current_index))
    }
}

} // verus!
