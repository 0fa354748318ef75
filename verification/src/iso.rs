use vstd::prelude::*;

verus! {

/// Size of a sector, in bytes.
pub const BLOCK_SIZE: usize = 2048;

/// The sector at which the volume descriptors begin: the sixteen before it
/// are the system area.
pub const FIRST_DESCRIPTOR: usize = 16;

/// Where the initial entry lies within the boot catalog.
pub const INITIAL_ENTRY_OFFSET: usize = 32;

/// Why a boot image could not be taken from a disk image.
#[derive(Clone, Copy, Debug, PartialEq, Eq, Structural)]
pub enum LoadError {
    /// The volume descriptors end, with the terminator or with the disk
    /// image, before any boot record.
    NoBootRecord,
    /// The boot record does not carry the standard identifier.
    InvalidIdentifier,
    /// The boot record names a catalog sector that the disk image does not
    /// hold.
    CatalogOutOfBounds,
    /// The boot catalog is too short to hold the validation entry and the
    /// initial entry.
    CatalogTooShort,
    /// The header id of the validation entry is not 1.
    InvalidHeaderId,
    /// The reserved word of the validation entry is not zero.
    ReservedWordNotZero,
    /// The initial entry is not marked bootable.
    NotBootable,
    /// The destination holds fewer bytes than the boot image has.
    DestinationTooSmall,
    /// The disk image ends before the boot image does.
    SourceTooShort,
}

/// The two kinds of failure: something looked for is not there, or what is
/// there is not as it must be.
#[derive(Clone, Copy, Debug, PartialEq, Eq, Structural)]
pub enum FailureClass {
    NotFound,
    InvalidInput,
}

impl LoadError {
    /// Only a missing boot record is a failure to find; every other error
    /// says that the input is not as it must be.
    pub open spec fn class_spec(self) -> FailureClass {
        if self == LoadError::NoBootRecord {
            FailureClass::NotFound
        } else {
            FailureClass::InvalidInput
        }
    }

    /// The kind of failure that this error is.
    pub fn class(&self) -> (class: FailureClass)
        ensures
            class == self.class_spec(),
    {
        match self {
            LoadError::NoBootRecord => FailureClass::NotFound,
            _ => FailureClass::InvalidInput,
        }
    }
}

/// A boot image taken from a disk image.
#[derive(Debug, PartialEq, Eq)]
pub struct BootImage {
    /// The sector of the disk image at which the boot image starts.
    pub start_block: u32,
    /// How many sectors the boot image has.
    pub sector_count: u16,
    /// Why the boot catalog was not accepted, if it was not: the image is
    /// then empty.
    pub catalog_defect: Option<LoadError>,
    /// The bytes of the boot image.
    pub bytes: Vec<u8>,
}

/// What a boot image holds.
pub struct BootImageContents {
    pub start_block: u32,
    pub sector_count: u16,
    pub catalog_defect: Option<LoadError>,
    pub bytes: Seq<u8>,
}

impl View for BootImage {
    type V = BootImageContents;

    open spec fn view(&self) -> BootImageContents {
        BootImageContents {
            start_block: self.start_block,
            sector_count: self.sector_count,
            catalog_defect: self.catalog_defect,
            bytes: self.bytes@,
        }
    }
}

/// The little-endian 16-bit number at `at` and the byte after it.
pub open spec fn le_u16_at(bytes: Seq<u8>, at: int) -> u16 {
    (bytes[at] + 0x100 * bytes[at + 1]) as u16
}

/// The little-endian 32-bit number at `at` and the three bytes after it.
pub open spec fn le_u32_at(bytes: Seq<u8>, at: int) -> u32 {
    (bytes[at] + 0x100 * bytes[at + 1] + 0x1_0000 * bytes[at + 2] + 0x100_0000 * bytes[at
        + 3]) as u32
}

/// The byte offset at which sector `block` starts.
pub open spec fn block_offset(block: int) -> int {
    block * 2048
}

/// Whether the disk image holds all of sector `k`.
pub open spec fn holds_sector(data: Seq<u8>, k: int) -> bool {
    0 <= k && block_offset(k + 1) <= data.len()
}

/// The type byte of the volume descriptor in sector `k`.
pub open spec fn descriptor_type(data: Seq<u8>, k: int) -> u8 {
    data[block_offset(k)]
}

/// Whether bytes 1 to 5 of sector `k` spell `CD001`.
pub open spec fn has_standard_identifier(data: Seq<u8>, k: int) -> bool {
    &&& data[block_offset(k) + 1] == 0x43
    &&& data[block_offset(k) + 2] == 0x44
    &&& data[block_offset(k) + 3] == 0x30
    &&& data[block_offset(k) + 4] == 0x30
    &&& data[block_offset(k) + 5] == 0x31
}

/// What the boot record in sector `k` says of the boot catalog: its sector
/// number, if the record carries the standard identifier.
pub open spec fn boot_record_catalog(data: Seq<u8>, k: int) -> Result<u32, LoadError> {
    if has_standard_identifier(data, k) {
        Ok(le_u32_at(data, block_offset(k) + 71))
    } else {
        Err(LoadError::InvalidIdentifier)
    }
}

/// The outcome of scanning the volume descriptors from sector `k` on: the
/// first boot record decides, and the terminator or the end of the disk image
/// ends the scan with nothing found.
pub open spec fn scan_descriptors(data: Seq<u8>, k: int) -> Result<u32, LoadError>
    decreases data.len() - block_offset(k),
{
    if !holds_sector(data, k) {
        Err(LoadError::NoBootRecord)
    } else if descriptor_type(data, k) == 0 {
        boot_record_catalog(data, k)
    } else if descriptor_type(data, k) == 255 {
        Err(LoadError::NoBootRecord)
    } else {
        scan_descriptors(data, k + 1)
    }
}

/// Whether the scan gets as far as sector `k`: the disk image holds it, and
/// no sector from 16 up to it is a boot record or the terminator.
pub open spec fn scan_reaches(data: Seq<u8>, k: int) -> bool {
    &&& 16 <= k
    &&& holds_sector(data, k)
    &&& forall|j: int|
        16 <= j < k ==> #[trigger] descriptor_type(data, j) != 0 && descriptor_type(data, j)
            != 255
}

/// The sector number of the boot catalog that the disk image names, or why
/// it names none.
pub open spec fn located_catalog(data: Seq<u8>) -> Result<u32, LoadError> {
    scan_descriptors(data, 16)
}

/// What a boot catalog says of the boot image: the sector at which it starts
/// and how many sectors it has. The catalog must hold the validation entry
/// and the initial entry, the first with header id 1 and a zero reserved word,
/// the second marked bootable.
pub open spec fn catalog_extent(catalog: Seq<u8>) -> Result<(u32, u16), LoadError> {
    if catalog.len() < 64 {
        Err(LoadError::CatalogTooShort)
    } else if catalog[0] != 0x01 {
        Err(LoadError::InvalidHeaderId)
    } else if catalog[2] != 0x00 || catalog[3] != 0x00 {
        Err(LoadError::ReservedWordNotZero)
    } else if catalog[32] != 0x88 {
        Err(LoadError::NotBootable)
    } else {
        Ok((le_u32_at(catalog, 40), le_u16_at(catalog, 38)))
    }
}

/// A result without the reason of its failure.
pub open spec fn found<T>(result: Result<T, LoadError>) -> Option<T> {
    match result {
        Ok(value) => Some(value),
        Err(_) => None,
    }
}

/// Whether a copy of `sector_count` sectors from `start_block` on succeeds,
/// and why not, by the lengths of the disk image and of the destination.
pub open spec fn copy_verdict(
    data_len: int,
    start_block: u32,
    sector_count: u16,
    destination_len: int,
) -> Result<(), LoadError> {
    if destination_len < block_offset(sector_count as int) {
        Err(LoadError::DestinationTooSmall)
    } else if block_offset(start_block as int) + block_offset(sector_count as int) > data_len {
        Err(LoadError::SourceTooShort)
    } else {
        Ok(())
    }
}

/// The bytes of `sector_count` sectors of the disk image from `start_block`
/// on.
pub open spec fn image_bytes(data: Seq<u8>, start_block: u32, sector_count: u16) -> Seq<u8> {
    data.subrange(
        block_offset(start_block as int),
        block_offset(start_block as int) + block_offset(sector_count as int),
    )
}

/// The boot image that a disk image yields.
///
/// The boot record must name a catalog sector that the disk image holds. A
/// catalog that is not accepted yields an empty image from sector 0; one that
/// is accepted yields the sectors it gives, which the disk image must hold.
pub open spec fn extraction(data: Seq<u8>) -> Result<BootImageContents, LoadError> {
    match located_catalog(data) {
        Err(error) => Err(error),
        Ok(location) => if !holds_sector(data, location as int) {
            Err(LoadError::CatalogOutOfBounds)
        } else {
            let catalog = data.subrange(
                block_offset(location as int),
                block_offset(location as int + 1),
            );
            match catalog_extent(catalog) {
                Err(defect) => Ok(
                    BootImageContents {
                        start_block: 0,
                        sector_count: 0,
                        catalog_defect: Some(defect),
                        bytes: Seq::empty(),
                    },
                ),
                Ok((start_block, sector_count)) => if block_offset(start_block as int)
                    + block_offset(sector_count as int) > data.len() {
                    Err(LoadError::SourceTooShort)
                } else {
                    Ok(
                        BootImageContents {
                            start_block,
                            sector_count,
                            catalog_defect: None,
                            bytes: image_bytes(data, start_block, sector_count),
                        },
                    )
                },
            }
        },
    }
}

fn read_le_u16(bytes: &[u8], at: usize) -> (value: u16)
    requires
        at + 2 <= bytes.len(),
    ensures
        value == le_u16_at(bytes@, at as int),
{
    let b0 = bytes[at];
    let b1 = bytes[at + 1];
    assert((b0 as u16) | ((b1 as u16) << 8) == (b0 + 0x100 * b1) as u16) by (bit_vector);
    (b0 as u16) | ((b1 as u16) << 8)
}

fn read_le_u32(bytes: &[u8], at: usize) -> (value: u32)
    requires
        at + 4 <= bytes.len(),
    ensures
        value == le_u32_at(bytes@, at as int),
{
    let b0 = bytes[at];
    let b1 = bytes[at + 1];
    let b2 = bytes[at + 2];
    let b3 = bytes[at + 3];
    assert((b0 as u32) | ((b1 as u32) << 8) | ((b2 as u32) << 16) | ((b3 as u32) << 24) == (b0
        + 0x100 * b1 + 0x1_0000 * b2 + 0x100_0000 * b3) as u32) by (bit_vector);
    (b0 as u32) | ((b1 as u32) << 8) | ((b2 as u32) << 16) | ((b3 as u32) << 24)
}

/// Scans the volume descriptors of a disk image for the boot record, and
/// returns the sector number of the boot catalog that it names, or why there
/// is none.
pub fn find_boot_catalog(data: &[u8]) -> (location: Result<u32, LoadError>)
    ensures
        location == located_catalog(data@),
{
    if data.len() < FIRST_DESCRIPTOR * BLOCK_SIZE {
        return Err(LoadError::NoBootRecord);
    }
    let mut offset: usize = FIRST_DESCRIPTOR * BLOCK_SIZE;
    let ghost mut k: int = 16;
    while data.len() - offset >= BLOCK_SIZE
        invariant
            offset <= data.len(),
            offset == block_offset(k),
            16 <= k,
            located_catalog(data@) == scan_descriptors(data@, k),
        decreases data.len() - offset,
    {
        let descriptor_type = data[offset];
        if descriptor_type == 0 {
            let standard = data[offset + 1] == 0x43 && data[offset + 2] == 0x44 && data[offset + 3]
                == 0x30 && data[offset + 4] == 0x30 && data[offset + 5] == 0x31;
            if !standard {
                return Err(LoadError::InvalidIdentifier);
            }
            return Ok(read_le_u32(data, offset + 71));
        }
        if descriptor_type == 255 {
            return Err(LoadError::NoBootRecord);
        }
        offset += BLOCK_SIZE;
        proof {
            k = k + 1;
        }
    }
    Err(LoadError::NoBootRecord)
}

/// The sector number of the boot catalog that the disk image names, if it
/// names one.
pub fn get_boot_catalog_location(data: &[u8]) -> (location: Option<u32>)
    ensures
        location == found(located_catalog(data@)),
{
    match find_boot_catalog(data) {
        Ok(location) => Some(location),
        Err(_) => None,
    }
}

/// Reads from a boot catalog where the boot image starts and how many
/// sectors it has, or says what is wrong with the catalog.
pub fn read_boot_catalog(boot_catalog: &[u8]) -> (extent: Result<(u32, u16), LoadError>)
    ensures
        extent == catalog_extent(boot_catalog@),
{
    if boot_catalog.len() < INITIAL_ENTRY_OFFSET + 32 {
        return Err(LoadError::CatalogTooShort);
    }
    if boot_catalog[0] != 0x01 {
        return Err(LoadError::InvalidHeaderId);
    }
    if boot_catalog[2] != 0x00 || boot_catalog[3] != 0x00 {
        return Err(LoadError::ReservedWordNotZero);
    }
    if boot_catalog[INITIAL_ENTRY_OFFSET] != 0x88 {
        return Err(LoadError::NotBootable);
    }
    let start_block = read_le_u32(boot_catalog, INITIAL_ENTRY_OFFSET + 8);
    let sector_count = read_le_u16(boot_catalog, INITIAL_ENTRY_OFFSET + 6);
    Ok((start_block, sector_count))
}

/// Where the boot image starts and how many sectors it has, if the boot
/// catalog is accepted.
pub fn get_boot_img_start_block_and_sector_count(boot_catalog: &[u8]) -> (extent: Option<
    (u32, u16),
>)
    ensures
        extent == found(catalog_extent(boot_catalog@)),
{
    match read_boot_catalog(boot_catalog) {
        Ok(extent) => Some(extent),
        Err(_) => None,
    }
}

/// Copies `sector_count` sectors of the disk image, from `start_block` on,
/// to the front of `destination`. On failure the destination stays as it
/// was.
pub fn copy_boot_image(
    data: &[u8],
    start_block: u32,
    sector_count: u16,
    destination: &mut [u8],
) -> (result: Result<(), LoadError>)
    ensures
        result == copy_verdict(
            data@.len() as int,
            start_block,
            sector_count,
            old(destination)@.len() as int,
        ),
        result is Ok ==> final(destination)@ == image_bytes(data@, start_block, sector_count)
            + old(destination)@.skip(block_offset(sector_count as int)),
        result is Err ==> final(destination)@ == old(destination)@,
{
    let start: u64 = (start_block as u64) * 2048;
    let size: u64 = (sector_count as u64) * 2048;
    if (destination.len() as u64) < size {
        return Err(LoadError::DestinationTooSmall);
    }
    if start + size > data.len() as u64 {
        return Err(LoadError::SourceTooShort);
    }
    let start: usize = start as usize;
    let size: usize = size as usize;
    let mut i: usize = 0;
    while i < size
        invariant
            i <= size,
            start + size <= data.len(),
            size <= destination.len(),
            destination@.len() == old(destination)@.len(),
            destination@ == data@.subrange(start as int, start + i) + old(destination)@.skip(
                i as int,
            ),
        decreases size - i,
    {
        destination[i] = data[start + i];
        i += 1;
        assert(destination@ =~= data@.subrange(start as int, start + i) + old(destination)@.skip(
            i as int,
        ));
    }
    Ok(())
}

/// Takes the boot image out of a disk image: finds the boot record, reads
/// the boot catalog that it names, and copies the sectors that the catalog
/// gives. A catalog that is not accepted yields an empty image.
pub fn extract_boot_image(data: &[u8]) -> (result: Result<BootImage, LoadError>)
    ensures
        match result {
            Ok(image) => extraction(data@) == Ok::<BootImageContents, LoadError>(image@),
            Err(error) => extraction(data@) == Err::<BootImageContents, LoadError>(error),
        },
{
    let location = match find_boot_catalog(data) {
        Ok(location) => location,
        Err(error) => {
            return Err(error);
        },
    };
    let catalog_start: u64 = (location as u64) * 2048;
    if catalog_start + 2048 > data.len() as u64 {
        return Err(LoadError::CatalogOutOfBounds);
    }
    let catalog_start: usize = catalog_start as usize;
    let catalog = vstd::slice::slice_subrange(data, catalog_start, catalog_start + BLOCK_SIZE);
    let (start_block, sector_count, catalog_defect) = match read_boot_catalog(catalog) {
        Ok((start_block, sector_count)) => (start_block, sector_count, None),
        Err(defect) => (0u32, 0u16, Some(defect)),
    };
    let mut bytes: Vec<u8> = vec![0u8; (sector_count as usize) * 2048];
    match copy_boot_image(data, start_block, sector_count, bytes.as_mut_slice()) {
        Ok(()) => {
            assert(bytes@ =~= image_bytes(data@, start_block, sector_count));
            assert(catalog_defect is Some ==> bytes@ =~= Seq::<u8>::empty());
            Ok(BootImage { start_block, sector_count, catalog_defect, bytes })
        },
        Err(error) => Err(error),
    }
}

/// The scan returns what the first boot record says, where it comes before
/// any terminator.
pub proof fn lemma_scan_stops_at_boot_record(data: Seq<u8>, k: int)
    requires
        scan_reaches(data, k),
        descriptor_type(data, k) == 0,
    ensures
        located_catalog(data) == boot_record_catalog(data, k),
{
    lemma_scan_skips(data, 16, k);
}

/// The scan finds nothing where the terminator comes before any boot
/// record.
pub proof fn lemma_scan_stops_at_terminator(data: Seq<u8>, k: int)
    requires
        scan_reaches(data, k),
        descriptor_type(data, k) == 255,
    ensures
        located_catalog(data) == Err::<u32, LoadError>(LoadError::NoBootRecord),
{
    lemma_scan_skips(data, 16, k);
}

/// The scan finds nothing where no sector that the disk image holds, from
/// sector 16 on, is a boot record.
pub proof fn lemma_scan_without_boot_record(data: Seq<u8>)
    requires
        forall|j: int| 16 <= j && holds_sector(data, j) ==> #[trigger] descriptor_type(data, j) != 0,
    ensures
        located_catalog(data) == Err::<u32, LoadError>(LoadError::NoBootRecord),
{
    lemma_scan_finds_nothing(data, 16);
}

/// A copy succeeds exactly if the destination has room for the sectors and
/// the disk image holds them all.
pub proof fn lemma_copy_succeeds(
    data_len: int,
    start_block: u32,
    sector_count: u16,
    destination_len: int,
)
    ensures
        copy_verdict(data_len, start_block, sector_count, destination_len) is Ok <==> 2048
            * sector_count <= destination_len && 2048 * (start_block + sector_count) <= data_len,
{
}

proof fn lemma_scan_skips(data: Seq<u8>, from: int, k: int)
    requires
        16 <= from <= k,
        holds_sector(data, k),
        forall|j: int|
            from <= j < k ==> #[trigger] descriptor_type(data, j) != 0 && descriptor_type(data, j)
                != 255,
    ensures
        scan_descriptors(data, from) == scan_descriptors(data, k),
    decreases k - from,
{
    if from < k {
        lemma_scan_skips(data, from + 1, k);
    }
}

proof fn lemma_scan_finds_nothing(data: Seq<u8>, from: int)
    requires
        16 <= from,
        forall|j: int|
            from <= j && holds_sector(data, j) ==> #[trigger] descriptor_type(data, j) != 0,
    ensures
        scan_descriptors(data, from) == Err::<u32, LoadError>(LoadError::NoBootRecord),
    decreases data.len() - block_offset(from),
{
    if holds_sector(data, from) && descriptor_type(data, from) != 255 {
        lemma_scan_finds_nothing(data, from + 1);
    }
}

} // verus!
