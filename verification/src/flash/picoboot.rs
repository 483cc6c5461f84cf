//! Raspberry Pi PicoBoot firmware flashing.
use vstd::prelude::*;

use crate::bytes;
use crate::flash::FlashResult;
use crate::text;

verus! {

/// The size of one UF2 block.
pub const BLOCK_SIZE: usize = 512;

/// The first two words and the last word of every UF2 block.
pub const MAGIC_START_0: u32 = 0x0a32_4655;

/// See [`MAGIC_START_0`].
pub const MAGIC_START_1: u32 = 0x9e5d_5157;

/// See [`MAGIC_START_0`].
pub const MAGIC_END: u32 = 0x0ab1_6f30;

/// The flag of blocks that name a chip family.
pub const FLAG_FAMILY_ID_PRESENT: u32 = 0x0000_2000;

/// The RP2040 chip family.
pub const RP2040_FAMILY_ID: u32 = 0xe48b_ff56;

/// The payload of one block.
pub const PAGE_SIZE: usize = 256;

/// Where flash begins.
pub const FLASH_START: u32 = 0x1000_0000;

/// The smallest unit that can be erased.
pub const SECTOR_SIZE: u32 = 4096;

/// How long a device waits before it reboots, in milliseconds.
pub const REBOOT_DELAY_MS: u64 = 500;

/// A decoded contiguous UF2 image suitable for PicoBoot flash commands.
#[derive(Clone, Debug, PartialEq, Eq)]
pub struct Uf2Image {
    /// Target address of the first firmware byte.
    pub address: u32,
    /// Contiguous firmware bytes.
    pub bytes: Vec<u8>,
}

/// UF2 decoding error.
#[derive(Clone, Copy, Debug, PartialEq, Eq, Structural)]
pub enum Uf2Error {
    /// The image does not consist of complete UF2 blocks.
    InvalidLength,
    /// A UF2 block is malformed or not a main-flash RP2040 block.
    InvalidBlock,
    /// UF2 blocks do not form a contiguous image.
    NonContiguous,
}

impl Uf2Error {
    /// The wording of this error.
    pub open spec fn text(self) -> Seq<char> {
        match self {
            Uf2Error::InvalidLength =>
            "UF2 image length is not a multiple of the 512-byte block size"@,
            Uf2Error::InvalidBlock => "UF2 image contains a malformed or non-RP2040 block"@,
            Uf2Error::NonContiguous =>
            "UF2 image blocks do not form a contiguous address range"@,
        }
    }

    /// The wording of this error.
    pub fn message(self) -> (message: String)
        ensures
            message@ == self.text(),
    {
        match self {
            Uf2Error::InvalidLength =>
            "UF2 image length is not a multiple of the 512-byte block size".to_owned(),
            Uf2Error::InvalidBlock =>
            "UF2 image contains a malformed or non-RP2040 block".to_owned(),
            Uf2Error::NonContiguous =>
            "UF2 image blocks do not form a contiguous address range".to_owned(),
        }
    }
}

/// The little-endian word of block `index` at `offset`.
pub open spec fn word(firmware: Seq<u8>, index: int, offset: int) -> u32 {
    bytes::le_value(
        firmware.subrange(512 * index + offset, 512 * index + offset + 4),
    ) as u32
}

/// Whether block `index` is a well-formed main-flash RP2040 block of an image of `count` blocks.
#[verifier::opaque]
pub open spec fn valid_block(firmware: Seq<u8>, index: int, count: int) -> bool {
    &&& word(firmware, index, 0) == MAGIC_START_0
    &&& word(firmware, index, 4) == MAGIC_START_1
    &&& word(firmware, index, 508) == MAGIC_END
    &&& word(firmware, index, 8) & FLAG_FAMILY_ID_PRESENT != 0
    &&& word(firmware, index, 28) == RP2040_FAMILY_ID
    &&& word(firmware, index, 16) == PAGE_SIZE
    &&& word(firmware, index, 20) == index % 0x1_0000_0000
    &&& word(firmware, index, 24) == count % 0x1_0000_0000
    &&& word(firmware, index, 12) >= FLASH_START
    &&& word(firmware, index, 12) % 256 == 0
}

/// Whether block `index` continues the image that the first block begins.
pub open spec fn continues(firmware: Seq<u8>, index: int) -> bool {
    word(firmware, index, 12) == word(firmware, 0, 12) + 256 * index
}

/// The first fault in the blocks from `index` on; a malformed block comes before a gap.
pub open spec fn block_fault(firmware: Seq<u8>, index: int, count: int) -> Option<Uf2Error>
    decreases count - index,
{
    if index >= count {
        None
    } else if !valid_block(firmware, index, count) {
        Some(Uf2Error::InvalidBlock)
    } else if !continues(firmware, index) {
        Some(Uf2Error::NonContiguous)
    } else {
        block_fault(firmware, index + 1, count)
    }
}

/// The payloads of the first `count` blocks, one after the other.
pub open spec fn payloads(firmware: Seq<u8>, count: int) -> Seq<u8> {
    Seq::new((256 * count) as nat, |k: int| firmware[512 * (k / 256) + 32 + k % 256])
}

/// What a UF2 file decodes to: the address and bytes of its image, or its first fault.
pub open spec fn uf2_image(firmware: Seq<u8>) -> Result<(u32, Seq<u8>), Uf2Error> {
    let count = firmware.len() as int / 512;
    if firmware.len() == 0 || firmware.len() % 512 != 0 {
        Err(Uf2Error::InvalidLength)
    } else {
        match block_fault(firmware, 0, count) {
            Some(fault) => Err(fault),
            None => Ok((word(firmware, 0, 12), payloads(firmware, count))),
        }
    }
}

fn word_at(firmware: &[u8], start: usize, offset: usize) -> (value: u32)
    requires
        start % 512 == 0,
        start + 512 <= firmware@.len(),
        offset <= 508,
    ensures
        value == word(firmware@, start as int / 512, offset as int),
{
    assert(512 * (start as int / 512) == start);
    bytes::le_u32_at(firmware, start + offset)
}

fn block_is_valid(firmware: &[u8], start: usize, index: usize, count: usize) -> (valid: bool)
    requires
        start == 512 * index,
        start + 512 <= firmware@.len(),
    ensures
        valid == valid_block(firmware@, index as int, count as int),
        valid ==> word(firmware@, index as int, 12) + 256 <= 0x1_0000_0000,
{
    reveal(valid_block);
    let address: u32 = word_at(firmware, start, 12);
    let number: u32 = ((index as u64) % 0x1_0000_0000) as u32;
    let total: u32 = ((count as u64) % 0x1_0000_0000) as u32;
    word_at(firmware, start, 0) == MAGIC_START_0 && word_at(firmware, start, 4) == MAGIC_START_1
        && word_at(firmware, start, 508) == MAGIC_END && word_at(firmware, start, 8)
        & FLAG_FAMILY_ID_PRESENT != 0 && word_at(firmware, start, 28) == RP2040_FAMILY_ID
        && word_at(firmware, start, 16) == PAGE_SIZE as u32 && word_at(firmware, start, 20)
        == number && word_at(firmware, start, 24) == total && address >= FLASH_START && address
        % 256 == 0
}

proof fn lemma_payloads_grow(firmware: Seq<u8>, index: int)
    requires
        0 <= index,
        512 * index + 512 <= firmware.len(),
    ensures
        payloads(firmware, index) + firmware.subrange(512 * index + 32, 512 * index + 288)
            == payloads(firmware, index + 1),
{
    let page = firmware.subrange(512 * index + 32, 512 * index + 288);
    let longer = payloads(firmware, index + 1);
    assert forall|k: int| 0 <= k < longer.len() implies (payloads(firmware, index) + page)[k]
        == #[trigger] longer[k] by {
        if k >= 256 * index {
            assert(k / 256 == index);
            assert(k % 256 == k - 256 * index);
        }
    }
    assert(payloads(firmware, index) + page =~= longer);
}

/// Decodes one contiguous RP2040 UF2 image.
pub fn decode_uf2(firmware: &[u8]) -> (image: Result<Uf2Image, Uf2Error>)
    ensures
        match image {
            Ok(image) => uf2_image(firmware@) == Ok::<(u32, Seq<u8>), Uf2Error>(
                (image.address, image.bytes@),
            ) && image.address + image.bytes@.len() <= 0x1_0000_0000,
            Err(error) => uf2_image(firmware@) == Err::<(u32, Seq<u8>), Uf2Error>(error),
        },
{
    if firmware.len() == 0 || firmware.len() % BLOCK_SIZE != 0 {
        return Err(Uf2Error::InvalidLength);
    }
    let count: usize = firmware.len() / BLOCK_SIZE;
    let mut image: Vec<u8> = Vec::new();
    let first: u32 = word_at(firmware, 0, 12);
    let mut index: usize = 0;
    assert(image@ =~= payloads(firmware@, 0));
    while index < count
        invariant
            index <= count,
            0 < count,
            firmware@.len() == 512 * count,
            512 * count <= usize::MAX,
            first == word(firmware@, 0, 12),
            image@ == payloads(firmware@, index as int),
            block_fault(firmware@, 0, count as int) == block_fault(
                firmware@,
                index as int,
                count as int,
            ),
            index > 0 ==> first + image@.len() <= 0x1_0000_0000,
        decreases count - index,
    {
        let start: usize = index * 512;
        let address: u32 = word_at(firmware, start, 12);
        if !block_is_valid(firmware, start, index, count) {
            return Err(Uf2Error::InvalidBlock);
        }
        let end: u64 = first as u64 + 256 * index as u64;
        if address as u64 != end {
            return Err(Uf2Error::NonContiguous);
        }
        let page: Vec<u8> = bytes::copy_range(firmware, start + 32, start + 288);
        bytes::append(&mut image, page.as_slice());
        proof {
            lemma_payloads_grow(firmware@, index as int);
        }
        index += 1;
    }
    Ok(Uf2Image { address: first, bytes: image })
}

/// A decoded image begins and ends on a page of flash and fits the 32-bit address space.
pub proof fn law_image_fits_flash(firmware: Seq<u8>)
    requires
        uf2_image(firmware) is Ok,
    ensures
        ({
            let image = uf2_image(firmware)->Ok_0;
            &&& image.0 >= FLASH_START
            &&& image.0 % 256 == 0
            &&& image.1.len() > 0
            &&& image.1.len() % 256 == 0
            &&& image.0 + image.1.len() <= 0x1_0000_0000
        }),
{
    let count = firmware.len() as int / 512;
    lemma_no_fault(firmware, 0, count, 0);
    lemma_no_fault(firmware, 0, count, count - 1);
}

/// Every block of a decodable file states its own place in the image: its payload stands at the
/// offset that its address gives.
pub proof fn law_payload_stands_at_its_address(firmware: Seq<u8>, index: int, k: int)
    requires
        uf2_image(firmware) is Ok,
        0 <= index < firmware.len() as int / 512,
        0 <= k < 256,
    ensures
        ({
            let image = uf2_image(firmware)->Ok_0;
            image.1[word(firmware, index, 12) - image.0 + k] == firmware[512 * index + 32 + k]
        }),
{
    let count = firmware.len() as int / 512;
    lemma_no_fault(firmware, 0, count, index);
    let place = 256 * index + k;
    assert(place / 256 == index && place % 256 == k);
}

proof fn lemma_no_fault(firmware: Seq<u8>, from: int, count: int, index: int)
    requires
        block_fault(firmware, from, count) is None,
        from <= index < count,
    ensures
        valid_block(firmware, index, count),
        word(firmware, index, 12) >= FLASH_START,
        word(firmware, index, 12) % 256 == 0,
        continues(firmware, index),
    decreases index - from,
{
    reveal(valid_block);
    if from < index {
        lemma_no_fault(firmware, from + 1, count, index);
    }
}

/// PicoBoot transfer failure.
#[derive(Clone, Debug, PartialEq, Eq)]
pub enum PicoBootError {
    /// The Klipper artifact was not a supported UF2 image.
    Uf2(Uf2Error),
    /// No RP2040 or RP2350 ROM bootloader is available.
    DeviceNotFound,
    /// More than one PicoBoot target is present, making selection unsafe.
    AmbiguousDevice(usize),
    /// PicoBoot rejected a USB operation.
    Transport(String),
    /// Flash readback differed from the supplied UF2 image.
    VerificationMismatch,
}

impl PicoBootError {
    /// The wording of this error.
    pub open spec fn text(self) -> Seq<char> {
        match self {
            PicoBootError::Uf2(error) => "firmware is not a supported UF2 image: "@ + error.text(),
            PicoBootError::DeviceNotFound => "no RP2040 or RP2350 PicoBoot device found"@,
            PicoBootError::AmbiguousDevice(count) => text::decimal(count as nat)
                + " PicoBoot devices found, expected exactly one"@,
            PicoBootError::Transport(error) => "PicoBoot transport error: "@ + error@,
            PicoBootError::VerificationMismatch =>
            "flash readback did not match the written UF2 image"@,
        }
    }

    /// The wording of this error.
    pub fn message(&self) -> (message: String)
        ensures
            message@ == self.text(),
    {
        match self {
            PicoBootError::Uf2(error) => {
                let mut message: String = "firmware is not a supported UF2 image: ".to_owned();
                message.append(error.message().as_str());
                message
            },
            PicoBootError::DeviceNotFound => "no RP2040 or RP2350 PicoBoot device found".to_owned(),
            PicoBootError::AmbiguousDevice(count) => {
                let mut message: String = text::decimal_text(*count as u64);
                message.append(" PicoBoot devices found, expected exactly one");
                message
            },
            PicoBootError::Transport(error) => {
                let mut message: String = "PicoBoot transport error: ".to_owned();
                message.append(error.as_str());
                message
            },
            PicoBootError::VerificationMismatch =>
            "flash readback did not match the written UF2 image".to_owned(),
        }
    }
}

/// How far a use of a PicoBoot device has come.
#[derive(Debug, PartialEq, Eq)]
pub enum PicoStage {
    /// The devices are to be listed.
    Finding,
    /// The listed device with this index is to be opened.
    Connecting {
        /// The position of the device in the list.
        device: usize,
    },
    /// Exclusive access is to be taken.
    Claiming,
    /// Execution from flash is to be left.
    LeavingXip,
    /// The sectors of the image are to be erased.
    Erasing,
    /// The image is to be written.
    Writing,
    /// The image is to be read back.
    Reading,
    /// The device is to be rebooted.
    Rebooting,
    /// Nothing is left to do.
    Finished(Result<Option<FlashResult>, PicoBootError>),
}

/// The outcome of the operation that a stage asks for.
#[derive(Debug, PartialEq, Eq)]
pub enum PicoEvent {
    /// The sysfs paths of the PicoBoot devices on the bus.
    Devices(Vec<String>),
    /// The operation succeeded.
    Done,
    /// The bytes read back.
    Read(Vec<u8>),
    /// The operation failed.
    Failed(String),
}

/// The positions among the first `count` paths that are at the wanted topology.
pub open spec fn matching_devices(
    paths: Seq<String>,
    topology: Option<String>,
    count: int,
) -> Seq<int>
    decreases count,
{
    if count <= 0 {
        Seq::empty()
    } else {
        let before = matching_devices(paths, topology, count - 1);
        if topology is None || topology->Some_0@ == paths[count - 1]@ {
            before.push(count - 1)
        } else {
            before
        }
    }
}

fn find_devices(paths: &Vec<String>, topology: &Option<String>) -> (found: Vec<usize>)
    ensures
        found@.map_values(|i: usize| i as int) == matching_devices(
            paths@,
            *topology,
            paths@.len() as int,
        ),
{
    let mut found: Vec<usize> = Vec::new();
    let mut i: usize = 0;
    while i < paths.len()
        invariant
            i <= paths@.len(),
            found@.map_values(|k: usize| k as int) =~= matching_devices(
                paths@,
                *topology,
                i as int,
            ),
        decreases paths@.len() - i,
    {
        let matches: bool = match topology {
            Some(path) => text::same_text(path.as_str(), paths[i].as_str()),
            None => true,
        };
        if matches {
            found.push(i);
        }
        i += 1;
    }
    found
}

/// One use of a PicoBoot device: a flash where there is an image, else a plain reboot into the
/// application that is already in flash.
#[derive(Debug, PartialEq, Eq)]
pub struct PicobootRun {
    /// The USB topology of the device, where it is known.
    pub topology: Option<String>,
    /// The image to write.
    pub image: Option<Uf2Image>,
    /// How far the use has come.
    pub stage: PicoStage,
}

/// How many bytes of whole sectors hold `length` bytes.
pub open spec fn sector_bytes(length: int) -> int {
    (length + SECTOR_SIZE - 1) / SECTOR_SIZE as int * SECTOR_SIZE
}

impl PicobootRun {
    /// Begins to write one Klipper UF2 image.
    pub fn flash(topology: Option<String>, firmware: &[u8]) -> (run: Result<Self, PicoBootError>)
        ensures
            match run {
                Ok(run) => {
                    &&& run.topology == topology
                    &&& run.image is Some
                    &&& uf2_image(firmware@) == Ok::<(u32, Seq<u8>), Uf2Error>(
                        (run.image->Some_0.address, run.image->Some_0.bytes@),
                    )
                    &&& run.image->Some_0.address >= FLASH_START
                    &&& run.image->Some_0.address + run.image->Some_0.bytes@.len()
                        <= 0x1_0000_0000
                    &&& run.stage is Finding
                },
                Err(error) => error is Uf2 && uf2_image(firmware@) == Err::<
                    (u32, Seq<u8>),
                    Uf2Error,
                >(error->Uf2_0),
            },
    {
        match decode_uf2(firmware) {
            Ok(image) => {
                proof {
                    law_image_fits_flash(firmware@);
                }
                Ok(PicobootRun { topology, image: Some(image), stage: PicoStage::Finding })
            },
            Err(error) => Err(PicoBootError::Uf2(error)),
        }
    }

    /// Begins to reboot an already-detected device into its existing application, without erasing
    /// or writing new firmware.
    pub fn reboot(topology: Option<String>) -> (run: Self)
        ensures
            run == (PicobootRun { topology, image: None, stage: PicoStage::Finding }),
    {
        PicobootRun { topology, image: None, stage: PicoStage::Finding }
    }

    /// This use at another stage.
    pub open spec fn at(self, stage: PicoStage) -> Self {
        PicobootRun { stage, ..self }
    }

    /// How the use goes on after the pending operation's outcome. An outcome that does not answer
    /// the pending operation changes nothing.
    pub open spec fn after(self, event: PicoEvent) -> Self {
        match (self.stage, event) {
            (PicoStage::Finished(_), _) => self,
            (_, PicoEvent::Failed(error)) => self.at(
                PicoStage::Finished(Err(PicoBootError::Transport(error))),
            ),
            (PicoStage::Finding, PicoEvent::Devices(paths)) => {
                let found = matching_devices(paths@, self.topology, paths@.len() as int);
                if found.len() == 0 {
                    self.at(PicoStage::Finished(Err(PicoBootError::DeviceNotFound)))
                } else if found.len() == 1 {
                    self.at(PicoStage::Connecting { device: found[0] as usize })
                } else {
                    self.at(
                        PicoStage::Finished(
                            Err(PicoBootError::AmbiguousDevice(found.len() as usize)),
                        ),
                    )
                }
            },
            (PicoStage::Connecting { .. }, PicoEvent::Done) => self.at(PicoStage::Claiming),
            (PicoStage::Claiming, PicoEvent::Done) => if self.image is Some {
                self.at(PicoStage::LeavingXip)
            } else {
                self.at(PicoStage::Rebooting)
            },
            (PicoStage::LeavingXip, PicoEvent::Done) => self.at(PicoStage::Erasing),
            (PicoStage::Erasing, PicoEvent::Done) => self.at(PicoStage::Writing),
            (PicoStage::Writing, PicoEvent::Done) => self.at(PicoStage::Reading),
            (PicoStage::Reading, PicoEvent::Read(readback)) => if self.image is Some
                && self.image->Some_0.bytes@ == readback@ {
                self.at(PicoStage::Rebooting)
            } else {
                self.at(PicoStage::Finished(Err(PicoBootError::VerificationMismatch)))
            },
            (PicoStage::Rebooting, PicoEvent::Done) => self.at(
                PicoStage::Finished(
                    Ok(
                        match self.image {
                            Some(image) => Some(
                                FlashResult {
                                    reported_pages: None,
                                    padded_bytes: image.bytes@.len() as usize,
                                },
                            ),
                            None => None,
                        },
                    ),
                ),
            ),
            _ => self,
        }
    }

    /// Takes the pending operation's outcome.
    pub fn step(self, event: PicoEvent) -> (next: Self)
        ensures
            next == self.after(event),
    {
        match (self.stage, event) {
            (PicoStage::Finished(result), _) => PicobootRun {
                topology: self.topology,
                image: self.image,
                stage: PicoStage::Finished(result),
            },
            (_, PicoEvent::Failed(error)) => PicobootRun {
                topology: self.topology,
                image: self.image,
                stage: PicoStage::Finished(Err(PicoBootError::Transport(error))),
            },
            (PicoStage::Finding, PicoEvent::Devices(paths)) => {
                let found: Vec<usize> = find_devices(&paths, &self.topology);
                let ghost view = found@.map_values(|i: usize| i as int);
                assert(view.len() == found@.len());
                let stage: PicoStage = if found.len() == 0 {
                    PicoStage::Finished(Err(PicoBootError::DeviceNotFound))
                } else if found.len() == 1 {
                    assert(view[0] == found@[0]);
                    PicoStage::Connecting { device: found[0] }
                } else {
                    PicoStage::Finished(Err(PicoBootError::AmbiguousDevice(found.len())))
                };
                PicobootRun { topology: self.topology, image: self.image, stage }
            },
            (PicoStage::Connecting { .. }, PicoEvent::Done) => PicobootRun {
                topology: self.topology,
                image: self.image,
                stage: PicoStage::Claiming,
            },
            (PicoStage::Claiming, PicoEvent::Done) => {
                let stage: PicoStage = if self.image.is_some() {
                    PicoStage::LeavingXip
                } else {
                    PicoStage::Rebooting
                };
                PicobootRun { topology: self.topology, image: self.image, stage }
            },
            (PicoStage::LeavingXip, PicoEvent::Done) => PicobootRun {
                topology: self.topology,
                image: self.image,
                stage: PicoStage::Erasing,
            },
            (PicoStage::Erasing, PicoEvent::Done) => PicobootRun {
                topology: self.topology,
                image: self.image,
                stage: PicoStage::Writing,
            },
            (PicoStage::Writing, PicoEvent::Done) => PicobootRun {
                topology: self.topology,
                image: self.image,
                stage: PicoStage::Reading,
            },
            (PicoStage::Reading, PicoEvent::Read(readback)) => {
                let same: bool = match &self.image {
                    Some(image) => bytes::same_bytes(image.bytes.as_slice(), readback.as_slice()),
                    None => false,
                };
                let stage: PicoStage = if same {
                    PicoStage::Rebooting
                } else {
                    PicoStage::Finished(Err(PicoBootError::VerificationMismatch))
                };
                PicobootRun { topology: self.topology, image: self.image, stage }
            },
            (PicoStage::Rebooting, PicoEvent::Done) => {
                let done: Option<FlashResult> = match &self.image {
                    Some(image) => Some(
                        FlashResult { reported_pages: None, padded_bytes: image.bytes.len() },
                    ),
                    None => None,
                };
                PicobootRun {
                    topology: self.topology,
                    image: self.image,
                    stage: PicoStage::Finished(Ok(done)),
                }
            },
            (stage, _) => PicobootRun { topology: self.topology, image: self.image, stage },
        }
    }

    /// The number of bytes to erase for the image: its length in whole sectors.
    pub fn erase_size(&self) -> (size: u32)
        requires
            self.image is Some,
            self.image->Some_0.address >= FLASH_START,
            self.image->Some_0.address + self.image->Some_0.bytes@.len() <= 0x1_0000_0000,
        ensures
            size == sector_bytes(self.image->Some_0.bytes@.len() as int),
    {
        match &self.image {
            Some(image) => {
                let length: u32 = image.bytes.len() as u32;
                (length + 4095) / 4096 * 4096
            },
            None => 0,
        }
    }
}

/// The state after a series of outcomes.
pub open spec fn picoboot_trace(run: PicobootRun, events: Seq<PicoEvent>) -> PicobootRun
    decreases events.len(),
{
    if events.len() == 0 {
        run
    } else {
        picoboot_trace(run, events.drop_last()).after(events.last())
    }
}

/// A flash that reports success read the image back byte for byte before the reboot, whatever else
/// happened on the way.
pub proof fn law_flash_success_means_verified(run: PicobootRun, events: Seq<PicoEvent>)
    requires
        run.image is Some,
        run.stage is Finding,
        picoboot_trace(run, events).stage is Rebooting || (picoboot_trace(run, events).stage
            is Finished && picoboot_trace(run, events).stage->Finished_0 is Ok),
    ensures
        exists|i: int|
            0 <= i < events.len() && (#[trigger] events[i]) is Read && events[i]->Read_0@
                == run.image->Some_0.bytes@,
    decreases events.len(),
{
    lemma_picoboot_keeps(run, events);
    if events.len() > 0 {
        let shorter = events.drop_last();
        let before = picoboot_trace(run, shorter);
        lemma_picoboot_keeps(run, shorter);
        if before.stage is Rebooting || (before.stage is Finished && before.stage->Finished_0
            is Ok) {
            law_flash_success_means_verified(run, shorter);
            let i = choose|i: int|
                0 <= i < shorter.len() && (#[trigger] shorter[i]) is Read && shorter[i]->Read_0@
                    == run.image->Some_0.bytes@;
            assert(events[i] == shorter[i]);
        } else {
            assert(events[events.len() - 1] is Read);
        }
    }
}

proof fn lemma_picoboot_keeps(run: PicobootRun, events: Seq<PicoEvent>)
    ensures
        picoboot_trace(run, events).image == run.image,
        picoboot_trace(run, events).topology == run.topology,
    decreases events.len(),
{
    if events.len() > 0 {
        lemma_picoboot_keeps(run, events.drop_last());
    }
}

/// A plain reboot never erases, writes or reads flash.
pub proof fn law_reboot_leaves_flash_untouched(run: PicobootRun, events: Seq<PicoEvent>)
    requires
        run.image is None,
        run.stage is Finding,
    ensures
        !(picoboot_trace(run, events).stage is Erasing),
        !(picoboot_trace(run, events).stage is Writing),
        !(picoboot_trace(run, events).stage is Reading),
        !(picoboot_trace(run, events).stage is LeavingXip),
    decreases events.len(),
{
    lemma_picoboot_keeps(run, events);
    if events.len() > 0 {
        law_reboot_leaves_flash_untouched(run, events.drop_last());
        lemma_picoboot_keeps(run, events.drop_last());
    }
}


/// Whether `run` begins to write the image that `firmware` holds, or the image is refused.
pub open spec fn begins_flash(
    topology: Option<Seq<char>>,
    firmware: Seq<u8>,
    run: Result<PicobootRun, PicoBootError>,
) -> bool {
    match run {
        Ok(run) => {
            &&& match topology {
                Some(path) => run.topology is Some && run.topology->Some_0@ == path,
                None => run.topology is None,
            }
            &&& run.image is Some
            &&& uf2_image(firmware) == Ok::<(u32, Seq<u8>), Uf2Error>(
                (run.image->Some_0.address, run.image->Some_0.bytes@),
            )
            &&& run.stage is Finding
        },
        Err(error) => error is Uf2 && uf2_image(firmware) == Err::<(u32, Seq<u8>), Uf2Error>(
            error->Uf2_0,
        ),
    }
}

/// Begins to write, read back, and start one Klipper UF2 image on the only PicoBoot device.
pub fn flash_system(firmware: &[u8]) -> (run: Result<PicobootRun, PicoBootError>)
    ensures
        begins_flash(None, firmware@, run),
{
    PicobootRun::flash(None, firmware)
}

/// Begins to write, verify, and start one Klipper UF2 image at a selected USB topology.
pub fn flash_system_at_path(sysfs_path: &str, firmware: &[u8]) -> (run: Result<
    PicobootRun,
    PicoBootError,
>)
    ensures
        begins_flash(Some(sysfs_path@), firmware@, run),
{
    PicobootRun::flash(Some(sysfs_path.to_owned()), firmware)
}

/// Begins to reboot an already-detected PicoBoot device into its existing application, without
/// erasing or writing new firmware.
pub fn reboot_at_path(sysfs_path: &str) -> (run: PicobootRun)
    ensures
        run.topology is Some,
        run.topology->Some_0@ == sysfs_path@,
        run.image is None,
        run.stage is Finding,
{
    PicobootRun::reboot(Some(sysfs_path.to_owned()))
}

/// A PicoBoot flash operation bound to one USB topology.
#[derive(Clone, Debug, PartialEq, Eq)]
pub struct PicoBootAdapter {
    sysfs_path: String,
}

impl PicoBootAdapter {
    /// The USB topology of this operation.
    pub closed spec fn path(&self) -> Seq<char> {
        self.sysfs_path@
    }

    /// Binds a PicoBoot flash operation to its USB topology.
    pub fn new(sysfs_path: String) -> (adapter: Self)
        ensures
            adapter.path() == sysfs_path@,
    {
        PicoBootAdapter { sysfs_path }
    }

    /// Begins to flash `firmware` at the bound topology.
    pub fn flash(&self, firmware: &[u8]) -> (run: Result<PicobootRun, PicoBootError>)
        ensures
            begins_flash(Some(self.path()), firmware@, run),
    {
        flash_system_at_path(self.sysfs_path.as_str(), firmware)
    }
}

/// Whether the four bytes at `at` are these.
pub open spec fn stands_at(firmware: Seq<u8>, at: int, a: u8, b: u8, c: u8, d: u8) -> bool {
    firmware[at] == a && firmware[at + 1] == b && firmware[at + 2] == c && firmware[at + 3] == d
}

/// Whether the bytes of block `index` are those of an RP2040 UF2 block that is number `index` of
/// `count` and holds a page for `address`.
pub open spec fn is_uf2_block(firmware: Seq<u8>, index: int, count: int, address: int) -> bool {
    let at = 512 * index;
    &&& stands_at(firmware, at, 0x55, 0x46, 0x32, 0x0a)
    &&& stands_at(firmware, at + 4, 0x57, 0x51, 0x5d, 0x9e)
    &&& stands_at(firmware, at + 16, 0, 1, 0, 0)
    &&& stands_at(firmware, at + 28, 0x56, 0xff, 0x8b, 0xe4)
    &&& stands_at(firmware, at + 508, 0x30, 0x6f, 0xb1, 0x0a)
    &&& firmware[at + 9] / 0x20 % 2 == 1
    &&& firmware[at + 12] + 0x100 * firmware[at + 13] + 0x1_0000 * firmware[at + 14] + 0x100_0000
        * firmware[at + 15] == address
    &&& firmware[at + 20] + 0x100 * firmware[at + 21] + 0x1_0000 * firmware[at + 22] + 0x100_0000
        * firmware[at + 23] == index % 0x1_0000_0000
    &&& firmware[at + 24] + 0x100 * firmware[at + 25] + 0x1_0000 * firmware[at + 26] + 0x100_0000
        * firmware[at + 27] == count % 0x1_0000_0000
    &&& address >= 0x1000_0000
    &&& address % 256 == 0
}

proof fn lemma_block_word(firmware: Seq<u8>, index: int, offset: int)
    requires
        0 <= index,
        0 <= offset <= 508,
        512 * index + 512 <= firmware.len(),
    ensures
        word(firmware, index, offset) == firmware[512 * index + offset] + 0x100 * firmware[512
            * index + offset + 1] + 0x1_0000 * firmware[512 * index + offset + 2] + 0x100_0000
            * firmware[512 * index + offset + 3],
{
    let at = 512 * index + offset;
    bytes::law_word_is_little_endian(
        firmware[at],
        firmware[at + 1],
        firmware[at + 2],
        firmware[at + 3],
    );
    assert(firmware.subrange(at, at + 4) =~= seq![
        firmware[at],
        firmware[at + 1],
        firmware[at + 2],
        firmware[at + 3],
    ]);
}

proof fn lemma_four_bytes(firmware: Seq<u8>, at: int, a: u8, b: u8, c: u8, d: u8)
    ensures
        stands_at(firmware, at, a, b, c, d) <==> firmware[at] + 0x100 * firmware[at + 1] + 0x1_0000
            * firmware[at + 2] + 0x100_0000 * firmware[at + 3] == a + 0x100 * b + 0x1_0000 * c
            + 0x100_0000 * d,
{
    lemma_two_words(
        firmware[at] as int,
        firmware[at + 1] as int,
        firmware[at + 2] as int,
        firmware[at + 3] as int,
        a as int,
        b as int,
        c as int,
        d as int,
    );
}

proof fn lemma_two_words(w: int, x: int, y: int, z: int, a: int, b: int, c: int, d: int)
    requires
        0 <= w < 256 && 0 <= x < 256 && 0 <= y < 256 && 0 <= z < 256,
        0 <= a < 256 && 0 <= b < 256 && 0 <= c < 256 && 0 <= d < 256,
    ensures
        w + 0x100 * x + 0x1_0000 * y + 0x100_0000 * z == a + 0x100 * b + 0x1_0000 * c + 0x100_0000
            * d <==> w == a && x == b && y == c && z == d,
{
    if w + 0x100 * x + 0x1_0000 * y + 0x100_0000 * z == a + 0x100 * b + 0x1_0000 * c + 0x100_0000
        * d {
        lemma_digit_and_rest(w, x + 0x100 * y + 0x1_0000 * z, a, b + 0x100 * c + 0x1_0000 * d);
        lemma_digit_and_rest(x, y + 0x100 * z, b, c + 0x100 * d);
        lemma_digit_and_rest(y, z, c, d);
    }
}

proof fn lemma_digit_and_rest(low: int, high: int, other_low: int, other_high: int)
    requires
        0 <= low < 256,
        0 <= other_low < 256,
        low + 0x100 * high == other_low + 0x100 * other_high,
    ensures
        low == other_low,
        high == other_high,
{
}

proof fn lemma_family_flag(flags: u32, a: u8, b: u8, c: u8, d: u8)
    requires
        flags == a + 0x100 * b + 0x1_0000 * c + 0x100_0000 * d,
    ensures
        (flags & FLAG_FAMILY_ID_PRESENT != 0) == (b / 0x20 % 2 == 1),
{
    assert((flags & 0x0000_2000 != 0) == (flags / 0x2000 % 2 == 1)) by (bit_vector);
    assert(flags / 0x2000 == 8 * d as int * 0x100 + 8 * c as int + b as int / 0x20);
}

/// A block is accepted exactly if its bytes are those of a UF2 block.
proof fn lemma_block(firmware: Seq<u8>, index: int, count: int, address: int)
    requires
        0 <= index,
        512 * index + 512 <= firmware.len(),
    ensures
        (valid_block(firmware, index, count) && word(firmware, index, 12) == address)
            == is_uf2_block(firmware, index, count, address),
{
    reveal(valid_block);
    let at = 512 * index;
    lemma_block_word(firmware, index, 0);
    lemma_block_word(firmware, index, 4);
    lemma_block_word(firmware, index, 8);
    lemma_block_word(firmware, index, 12);
    lemma_block_word(firmware, index, 16);
    lemma_block_word(firmware, index, 20);
    lemma_block_word(firmware, index, 24);
    lemma_block_word(firmware, index, 28);
    lemma_block_word(firmware, index, 508);
    lemma_four_bytes(firmware, at, 0x55, 0x46, 0x32, 0x0a);
    lemma_four_bytes(firmware, at + 4, 0x57, 0x51, 0x5d, 0x9e);
    lemma_four_bytes(firmware, at + 16, 0, 1, 0, 0);
    lemma_four_bytes(firmware, at + 28, 0x56, 0xff, 0x8b, 0xe4);
    lemma_four_bytes(firmware, at + 508, 0x30, 0x6f, 0xb1, 0x0a);
    lemma_family_flag(
        word(firmware, index, 8),
        firmware[at + 8],
        firmware[at + 9],
        firmware[at + 10],
        firmware[at + 11],
    );
}

/// Whether the first `count` blocks are a run of UF2 blocks, each 256 bytes after the last.
pub open spec fn uf2_run(firmware: Seq<u8>, count: int, total: int, start: int) -> bool {
    forall|i: int|
        0 <= i < count ==> #[trigger] is_uf2_block(firmware, i, total, start + 256 * i)
}

proof fn lemma_fault_after(firmware: Seq<u8>, from: int, to: int, count: int, start: int)
    requires
        0 <= from <= to <= count,
        512 * count <= firmware.len(),
        uf2_run(firmware, to, count, start),
    ensures
        block_fault(firmware, from, count) == block_fault(firmware, to, count),
    decreases to - from,
{
    if from < to {
        assert(is_uf2_block(firmware, from, count, start + 256 * from));
        assert(is_uf2_block(firmware, 0, count, start + 256 * 0));
        lemma_block(firmware, from, count, start + 256 * from);
        lemma_block(firmware, 0, count, start);
        lemma_fault_after(firmware, from + 1, to, count, start);
    }
}

/// A file that is a run of RP2040 UF2 blocks is one image: it begins at the address of the first
/// block and holds the page of each block after that of the block before it.
pub proof fn law_run_of_blocks_is_one_image(firmware: Seq<u8>, count: int, start: int)
    requires
        count > 0,
        firmware.len() == 512 * count,
        uf2_run(firmware, count, count, start),
    ensures
        ({
            let image = uf2_image(firmware);
            &&& image is Ok
            &&& image->Ok_0.0 == start
            &&& image->Ok_0.1.len() == 256 * count
            &&& forall|index: int, k: int|
                0 <= index < count && 0 <= k < 256 ==> (#[trigger] image->Ok_0.1[256 * index + k])
                    == firmware[512 * index + 32 + k]
        }),
{
    lemma_fault_after(firmware, 0, count, count, start);
    assert(is_uf2_block(firmware, 0, count, start + 256 * 0));
    lemma_block(firmware, 0, count, start);
    assert(firmware.len() as int / 512 == count);
    assert forall|index: int, k: int| 0 <= index < count && 0 <= k < 256 implies (
    #[trigger] payloads(firmware, count)[256 * index + k]) == firmware[512 * index + 32 + k] by {
        let place = 256 * index + k;
        assert(place / 256 == index && place % 256 == k);
    }
}

/// Only a run of RP2040 UF2 blocks is an image.
pub proof fn law_image_is_a_run_of_blocks(firmware: Seq<u8>, index: int)
    requires
        uf2_image(firmware) is Ok,
        0 <= index < firmware.len() as int / 512,
    ensures
        firmware.len() > 0,
        firmware.len() % 512 == 0,
        is_uf2_block(
            firmware,
            index,
            firmware.len() as int / 512,
            uf2_image(firmware)->Ok_0.0 + 256 * index,
        ),
{
    let count = firmware.len() as int / 512;
    lemma_no_fault(firmware, 0, count, index);
    lemma_block(firmware, index, count, uf2_image(firmware)->Ok_0.0 + 256 * index);
}

/// What is wrong first is reported: the length of the file, else the first block that is no UF2
/// block or does not go on from the one before it.
pub proof fn law_first_fault_is_reported(
    firmware: Seq<u8>,
    count: int,
    bad: int,
    start: int,
    address: int,
)
    ensures
        (firmware.len() == 0 || firmware.len() % 512 != 0) == (uf2_image(firmware) == Err::<
            (u32, Seq<u8>),
            Uf2Error,
        >(Uf2Error::InvalidLength)),
        0 <= bad < count && firmware.len() == 512 * count && uf2_run(firmware, bad, count, start)
            && (forall|a: int| !#[trigger] is_uf2_block(firmware, bad, count, a))
            ==> uf2_image(firmware) == Err::<(u32, Seq<u8>), Uf2Error>(Uf2Error::InvalidBlock),
        0 < bad < count && firmware.len() == 512 * count && uf2_run(firmware, bad, count, start)
            && is_uf2_block(firmware, bad, count, address) && address != start + 256 * bad
            ==> uf2_image(firmware) == Err::<(u32, Seq<u8>), Uf2Error>(Uf2Error::NonContiguous),
{
    if firmware.len() > 0 && firmware.len() % 512 == 0 {
        lemma_fault_kinds(firmware, 0, firmware.len() as int / 512);
    }
    if 0 <= bad < count && firmware.len() == 512 * count && uf2_run(firmware, bad, count, start) {
        lemma_fault_after(firmware, 0, bad, count, start);
        assert(firmware.len() as int / 512 == count);
        if forall|a: int| !#[trigger] is_uf2_block(firmware, bad, count, a) {
            let a = word(firmware, bad, 12) as int;
            assert(!is_uf2_block(firmware, bad, count, a));
            lemma_block(firmware, bad, count, a);
        }
        if bad > 0 && is_uf2_block(firmware, bad, count, address) && address != start + 256 * bad {
            lemma_block(firmware, bad, count, address);
            assert(is_uf2_block(firmware, 0, count, start + 256 * 0));
            lemma_block(firmware, 0, count, start);
        }
    }
}

proof fn lemma_fault_kinds(firmware: Seq<u8>, from: int, count: int)
    ensures
        block_fault(firmware, from, count) != Some(Uf2Error::InvalidLength),
    decreases count - from,
{
    if from < count {
        lemma_fault_kinds(firmware, from + 1, count);
    }
}

/// What is erased covers the image, in whole sectors, and reaches less than a sector beyond it.
pub proof fn law_erased_sectors_cover_the_image(length: int)
    requires
        0 <= length,
    ensures
        sector_bytes(length) % 4096 == 0,
        length <= sector_bytes(length) < length + 4096,
{
}

/// Whether device `i` is at the wanted topology, if one is wanted.
pub open spec fn is_wanted(paths: Seq<String>, topology: Option<String>, i: int) -> bool {
    topology is Some ==> paths[i]@ == topology->Some_0@
}

proof fn lemma_matching(paths: Seq<String>, topology: Option<String>, count: int)
    requires
        0 <= count <= paths.len(),
    ensures
        ({
            let found = matching_devices(paths, topology, count);
            &&& forall|k: int|
                0 <= k < found.len() ==> 0 <= (#[trigger] found[k]) < count && is_wanted(
                    paths,
                    topology,
                    found[k],
                )
            &&& forall|i: int|
                0 <= i < count && #[trigger] is_wanted(paths, topology, i) ==> found.contains(i)
            &&& forall|a: int, b: int|
                0 <= a < b < found.len() ==> (#[trigger] found[a]) < (#[trigger] found[b])
        }),
    decreases count,
{
    if count > 0 {
        lemma_matching(paths, topology, count - 1);
        let before = matching_devices(paths, topology, count - 1);
        let now = matching_devices(paths, topology, count);
        if is_wanted(paths, topology, count - 1) {
            assert(now == before.push(count - 1));
            assert(now[now.len() - 1] == count - 1);
        }
        assert forall|i: int| 0 <= i < count && #[trigger] is_wanted(
            paths,
            topology,
            i,
        ) implies now.contains(i) by {
            if i < count - 1 {
                assert(before.contains(i));
                let k = choose|k: int| 0 <= k < before.len() && before[k] == i;
                assert(now[k] == i);
            }
        }
    }
}

/// The device that is used stands at the wanted topology, if one is wanted, and no other device
/// does. Without a wanted topology it is the only device.
pub proof fn law_device_must_be_the_only_one(run: PicobootRun, paths: Vec<String>, other: int)
    requires
        run.stage is Finding,
        paths@.len() <= usize::MAX,
        run.after(PicoEvent::Devices(paths)).stage is Connecting,
    ensures
        ({
            let device = run.after(PicoEvent::Devices(paths)).stage->device as int;
            &&& device < paths@.len()
            &&& run.topology is Some ==> paths@[device]@ == run.topology->Some_0@
            &&& 0 <= other < paths@.len() && other != device ==> run.topology is Some
                && paths@[other]@ != run.topology->Some_0@
        }),
{
    let found = matching_devices(paths@, run.topology, paths@.len() as int);
    lemma_matching(paths@, run.topology, paths@.len() as int);
    assert(found.len() == 1);
    assert(0 <= found[0] < paths@.len());
    assert(found[0] as usize == found[0]);
    if 0 <= other < paths@.len() && is_wanted(paths@, run.topology, other) {
        assert(found.contains(other));
    }
}

/// A device at the wanted topology is used if it is the only one there; where there is none the
/// use ends, and it ends too where there are two.
pub proof fn law_only_device_is_used(run: PicobootRun, paths: Vec<String>, i: int, j: int)
    requires
        run.stage is Finding,
    ensures
        ({
            let next = run.after(PicoEvent::Devices(paths));
            &&& 0 <= i < paths@.len() && is_wanted(paths@, run.topology, i) && (forall|k: int|
                0 <= k < paths@.len() && k != i ==> !#[trigger] is_wanted(paths@, run.topology, k))
                ==> next.stage == (PicoStage::Connecting { device: i as usize })
            &&& (forall|k: int|
                0 <= k < paths@.len() ==> !#[trigger] is_wanted(paths@, run.topology, k))
                ==> next.stage == PicoStage::Finished(Err(PicoBootError::DeviceNotFound))
            &&& 0 <= i < j < paths@.len() && is_wanted(paths@, run.topology, i) && is_wanted(
                paths@,
                run.topology,
                j,
            ) ==> next.stage is Finished && next.stage->Finished_0 is Err
                && next.stage->Finished_0->Err_0 is AmbiguousDevice
        }),
{
    let found = matching_devices(paths@, run.topology, paths@.len() as int);
    lemma_matching(paths@, run.topology, paths@.len() as int);
    if found.len() > 0 {
        assert(is_wanted(paths@, run.topology, found[0]));
        if found.len() > 1 {
            assert(is_wanted(paths@, run.topology, found[1]));
            assert(found[0] < found[1]);
        }
    }
    if 0 <= i < paths@.len() && is_wanted(paths@, run.topology, i) {
        assert(found.contains(i));
    }
    if 0 <= j < paths@.len() && is_wanted(paths@, run.topology, j) {
        assert(found.contains(j));
    }
}

/// A flash that is answered in order connects to its device, claims it, leaves the memory-mapped
/// mode, erases, writes, reads back and reboots. It succeeds with the size of the image if the
/// image was read back, and fails otherwise.
pub proof fn law_flash_goes_through_every_stage(run: PicobootRun, device: usize, read: Vec<u8>)
    requires
        run.stage == (PicoStage::Connecting { device }),
        run.image is Some,
    ensures
        ({
            let image = run.image->Some_0;
            let claiming = run.after(PicoEvent::Done);
            let leaving = claiming.after(PicoEvent::Done);
            let erasing = leaving.after(PicoEvent::Done);
            let writing = erasing.after(PicoEvent::Done);
            let reading = writing.after(PicoEvent::Done);
            let checked = reading.after(PicoEvent::Read(read));
            let done = checked.after(PicoEvent::Done);
            &&& claiming.stage is Claiming
            &&& leaving.stage is LeavingXip
            &&& erasing.stage is Erasing
            &&& writing.stage is Writing
            &&& reading.stage is Reading
            &&& reading.image == Some(image)
            &&& read@ == image.bytes@ ==> checked.stage is Rebooting && done.stage
                == PicoStage::Finished(
                Ok(
                    Some(
                        FlashResult {
                            reported_pages: None,
                            padded_bytes: image.bytes@.len() as usize,
                        },
                    ),
                ),
            )
            &&& read@ != image.bytes@ ==> checked.stage == PicoStage::Finished(
                Err(PicoBootError::VerificationMismatch),
            )
        }),
{
}

/// A plain reboot that is answered in order connects, claims and reboots, and reports no flash.
pub proof fn law_reboot_goes_through_its_stages(run: PicobootRun, device: usize)
    requires
        run.stage == (PicoStage::Connecting { device }),
        run.image is None,
    ensures
        ({
            let claiming = run.after(PicoEvent::Done);
            let rebooting = claiming.after(PicoEvent::Done);
            let done = rebooting.after(PicoEvent::Done);
            &&& claiming.stage is Claiming
            &&& rebooting.stage is Rebooting
            &&& done.stage == PicoStage::Finished(Ok(None))
        }),
{
}

/// A failed operation ends the use with its error, whatever the stage; an ended use stays as it
/// ended; and a use moves on only when what it waits for comes.
pub proof fn law_failure_ends_the_use(run: PicobootRun, event: PicoEvent)
    ensures
        event is Failed && !(run.stage is Finished) ==> run.after(event).stage
            == PicoStage::Finished(Err(PicoBootError::Transport(event->Failed_0))),
        run.stage is Finished ==> run.after(event) == run,
        event is Done && (run.stage is Finding || run.stage is Reading) ==> run.after(event) == run,
        event is Devices && !(run.stage is Finding) ==> run.after(event) == run,
        event is Read && !(run.stage is Reading) ==> run.after(event) == run,
        run.after(event).topology == run.topology,
        run.after(event).image == run.image,
{
}

/// A flash that begins holds the image of the firmware and looks for a device at the wanted
/// topology; a firmware that is no image is refused with its fault.
pub proof fn law_flash_begins_with_the_image(
    topology: Option<Seq<char>>,
    firmware: Seq<u8>,
    run: Result<PicobootRun, PicoBootError>,
)
    requires
        begins_flash(topology, firmware, run),
    ensures
        run is Ok <==> uf2_image(firmware) is Ok,
        run is Ok ==> {
            &&& run->Ok_0.stage is Finding
            &&& run->Ok_0.image is Some
            &&& run->Ok_0.image->Some_0.address == uf2_image(firmware)->Ok_0.0
            &&& run->Ok_0.image->Some_0.bytes@ == uf2_image(firmware)->Ok_0.1
            &&& run->Ok_0.topology is Some <==> topology is Some
            &&& topology is Some ==> run->Ok_0.topology->Some_0@ == topology->Some_0
        },
        run is Err ==> run->Err_0 is Uf2 && uf2_image(firmware) == Err::<(u32, Seq<u8>), Uf2Error>(
            run->Err_0->Uf2_0,
        ),
{
}

} // verus!
