//! The Katapult protocol: frames, sessions, transports and the flash backend.
use std::collections::VecDeque;

use aldis::builder::BuildRequest;
use aldis::failure::IoFailure;
use aldis::flash::katapult::adapter::{KatapultAdapter, KatapultFlashError};
use aldis::flash::katapult::bootstrap::{
    katapult_serial_device, request_can_bootloader, CanBootstrapError, SerialBootstrapError,
    SerialErrorKind, SerialOpenError,
};
use aldis::flash::katapult::can::{
    CanError, CanFrame, CanIo, CanTransportError, KatapultCanAddress, KatapultCanTransport,
};
use aldis::flash::katapult::endpoint::{endpoint_for, EndpointError, KatapultEndpoint};
use aldis::flash::katapult::serial::{
    KatapultSerialTransport, SerialIo, SerialTransportError, UsbBootloaderError,
};
use aldis::flash::katapult::session::{
    KatapultSession, KatapultTarget, SessionError, TargetError, Transport,
};
use aldis::flash::katapult::system::{
    KatapultEvent, KatapultRun, SystemKatapultError, SystemKatapultOptions,
};
use aldis::flash::katapult::{
    crc16_ccitt, decode_response, encode_command, Command, FrameError, Response,
};
use aldis::flash::usb_bootloader::{SelectedUsbBootloader, UsbBootloaderSelectionError};
use aldis::flash::{FlashBackend, FlashResult};
use aldis::moonraker::McuTransport;
use aldis::prepare::PreparedBuild;

/// A complete frame around `body`.
fn framed(body: &[u8]) -> Vec<u8> {
    let mut frame = vec![0x01, 0x88];
    frame.extend_from_slice(body);
    frame.extend_from_slice(&crc16_ccitt(body).to_le_bytes());
    frame.extend_from_slice(&[0x99, 0x03]);
    frame
}

/// A successful response to `command`.
fn reply(command: Command, data: &[u8]) -> Vec<u8> {
    let mut payload = u32::from(command.code()).to_le_bytes().to_vec();
    payload.extend_from_slice(data);
    payload.resize(payload.len().div_ceil(4) * 4, 0);
    let mut body = vec![0xa0, (payload.len() / 4) as u8];
    body.extend_from_slice(&payload);
    framed(&body)
}

#[test]
fn checksums_are_crc16_ccitt() {
    assert_eq!(crc16_ccitt(&[]), 0xffff);
    assert_eq!(crc16_ccitt(b"123456789"), 0x6f91);
    let mut all = Vec::new();
    for byte in 0..=255_u8 {
        all.push(byte);
        let mut crc = 0xffff_u16;
        for &byte in &all {
            let mut data = u16::from(byte) ^ (crc & 0xff);
            data ^= (data & 0x0f) << 4;
            crc = ((data << 8) | (crc >> 8)) ^ (data >> 4) ^ (data << 3);
        }
        assert_eq!(crc16_ccitt(&all), crc);
    }
}

#[test]
fn commands_are_framed_with_length_and_checksum() {
    assert_eq!(
        encode_command(Command::Connect, &[]).unwrap(),
        framed(&[Command::Connect.code(), 0])
    );
    assert_eq!(
        encode_command(Command::RequestBlock, &[1, 2, 3, 4]).unwrap(),
        framed(&[Command::RequestBlock.code(), 1, 1, 2, 3, 4])
    );
    assert_eq!(
        encode_command(Command::SendBlock, &[0; 6]),
        Err(FrameError::PayloadNotWordAligned { length: 6 })
    );
    assert_eq!(
        encode_command(Command::SendBlock, &[0; 1024]),
        Err(FrameError::PayloadTooLarge { length: 1024 })
    );
    assert!(encode_command(Command::SendBlock, &[0; 1020]).is_ok());
}

#[test]
fn a_response_yields_its_command_and_data() {
    assert_eq!(
        decode_response(&reply(Command::SendEof, &[7, 0, 0, 0])).unwrap(),
        Response {
            command: u32::from(Command::SendEof.code()),
            data: vec![7, 0, 0, 0]
        }
    );
}

#[test]
fn every_malformed_response_is_refused() {
    let good = reply(Command::Connect, &[]);
    let refused = |frame: &[u8]| decode_response(frame).unwrap_err();
    assert_eq!(refused(&good[..7]), FrameError::ResponseTooShort { length: 7 });
    assert_eq!(refused(&[0; 1029]), FrameError::ResponseTooLarge { length: 1029 });
    let changed = |index: usize, value: u8| {
        let mut frame = good.clone();
        frame[index] = value;
        frame
    };
    assert_eq!(refused(&changed(0, 2)), FrameError::InvalidResponseHeader);
    assert_eq!(refused(&changed(good.len() - 1, 0)), FrameError::InvalidResponseTrailer);
    assert_eq!(
        refused(&changed(3, 2)),
        FrameError::ResponseLengthMismatch {
            expected: 16,
            actual: 12
        }
    );
    let crc = crc16_ccitt(&good[2..8]);
    assert_eq!(
        refused(&changed(8, good[8] ^ 1)),
        FrameError::ResponseCrcMismatch {
            expected: crc,
            actual: crc ^ 1
        }
    );
    assert_eq!(
        refused(&framed(&[0xf1, 0])),
        FrameError::ResponseRejected { status: 0xf1 }
    );
    assert_eq!(refused(&framed(&[0xa0, 0])), FrameError::ResponseMissingCommand);
    assert_eq!(
        FrameError::ResponseRejected { status: 241 }.message(),
        "ResponseRejected { status: 241 }"
    );
}

/// A Katapult device that keeps what it is sent.
struct Device {
    start: u32,
    block_size: u32,
    uuid: [u8; 6],
    flash: Vec<u8>,
    corrupt_readback: bool,
    wrong_acknowledgements: usize,
    lost_replies: usize,
    completed: bool,
    requests: usize,
}

impl Device {
    fn new(block_size: u32) -> Self {
        Self {
            start: 0x0800_2000,
            block_size,
            uuid: [0xe7, 0x81, 0x9e, 0xd8, 0xe7, 0xd3],
            flash: Vec::new(),
            corrupt_readback: false,
            wrong_acknowledgements: 0,
            lost_replies: 0,
            completed: false,
            requests: 0,
        }
    }

    fn answer(&mut self, request: &[u8]) -> Vec<u8> {
        self.requests += 1;
        let payload = &request[4..request.len() - 4];
        let code = request[2];
        let block_size = self.block_size as usize;
        if code == Command::Connect.code() {
            let mut data = vec![1, 0, 0, 0];
            data.extend_from_slice(&self.start.to_le_bytes());
            data.extend_from_slice(&self.block_size.to_le_bytes());
            reply(Command::Connect, &data)
        } else if code == Command::GetCanbusId.code() {
            reply(Command::GetCanbusId, &self.uuid)
        } else if code == Command::SendBlock.code() {
            let address = u32::from_le_bytes(payload[..4].try_into().unwrap());
            if self.wrong_acknowledgements > 0 {
                self.wrong_acknowledgements -= 1;
                return reply(Command::SendBlock, &(address + 1).to_le_bytes());
            }
            let offset = (address - self.start) as usize;
            self.flash.resize(self.flash.len().max(offset + block_size), 0);
            self.flash[offset..offset + block_size].copy_from_slice(&payload[4..]);
            reply(Command::SendBlock, &address.to_le_bytes())
        } else if code == Command::SendEof.code() {
            reply(Command::SendEof, &3_u32.to_le_bytes())
        } else if code == Command::RequestBlock.code() {
            let address = u32::from_le_bytes(payload[..4].try_into().unwrap());
            let offset = (address - self.start) as usize;
            let mut data = payload[..4].to_vec();
            data.extend_from_slice(&self.flash[offset..offset + block_size]);
            if self.corrupt_readback {
                data[4] ^= 1;
            }
            reply(Command::RequestBlock, &data)
        } else {
            self.completed = true;
            reply(Command::Complete, &[])
        }
    }
}

impl Transport for Device {
    type Error = &'static str;

    fn exchange(&mut self, request: &[u8]) -> Result<Vec<u8>, &'static str> {
        if self.lost_replies > 0 {
            self.lost_replies -= 1;
            return Err("lost");
        }
        Ok(self.answer(request))
    }
}

#[test]
fn flashes_verifies_and_starts_a_device() {
    let firmware: Vec<u8> = (0..150_u8).collect();
    let mut adapter = KatapultAdapter::new(Device::new(64));

    let result = adapter.flash(&firmware);

    assert_eq!(
        result,
        Ok(FlashResult {
            reported_pages: Some(3),
            padded_bytes: 192
        })
    );
    let device = adapter.into_transport();
    assert_eq!(&device.flash[..150], firmware);
    assert!(device.flash[150..].iter().all(|byte| *byte == 0xff));
    assert_eq!(device.flash.len(), 192);
    assert!(device.completed);
    assert_eq!(device.requests, 1 + 3 + 1 + 3 + 1);
}

#[test]
fn an_empty_image_writes_no_block() {
    let mut adapter = KatapultAdapter::new(Device::new(256));
    assert_eq!(
        adapter.flash(&[]),
        Ok(FlashResult {
            reported_pages: Some(3),
            padded_bytes: 0
        })
    );
    assert_eq!(adapter.into_transport().requests, 3);
}

#[test]
fn a_readback_that_differs_leaves_the_application_unstarted() {
    let mut device = Device::new(128);
    device.corrupt_readback = true;
    let mut adapter = KatapultAdapter::new(device);
    let error = adapter.flash(&[1, 2, 3]).unwrap_err();
    assert_eq!(error, KatapultFlashError::Session(SessionError::ChecksumMismatch));
    assert_eq!(
        error.message(),
        "readback SHA-1 does not match the transmitted padded data"
    );
    assert!(!adapter.into_transport().completed);
}

#[test]
fn a_can_device_must_be_the_configured_one() {
    let mut adapter = KatapultAdapter::for_canbus(Device::new(64), 0xe781_9ed8_e7d3);
    assert!(adapter.flash(&[1]).is_ok());

    let mut adapter = KatapultAdapter::for_canbus(Device::new(64), 0x11);
    let error = adapter.flash(&[1]).unwrap_err();
    assert_eq!(
        error.message(),
        "Katapult CAN UUID 0xe7819ed8e7d3 does not match configured UUID 0x11"
    );
    assert!(adapter.into_transport().flash.is_empty());
}

#[test]
fn lost_replies_are_retried_up_to_a_limit() {
    let mut device = Device::new(64);
    device.lost_replies = 4;
    let connection = KatapultSession::new(device).connect().unwrap();
    assert_eq!(connection.protocol_version, [1, 0, 0, 0]);
    assert_eq!(connection.target, KatapultTarget::new(0x0800_2000, 64).unwrap());

    let mut device = Device::new(64);
    device.lost_replies = 5;
    let mut session = KatapultSession::new(device);
    let error = session.connect().unwrap_err();
    assert_eq!(
        error,
        SessionError::RetriesExhausted {
            command: Command::Connect,
            last_failure: "transport error: \"lost\"".to_owned()
        }
    );
    assert_eq!(
        error.message(),
        "no valid response to Connect after retrying: transport error: \"lost\""
    );
    assert!(session.connect().is_ok());
}

#[test]
fn a_block_is_sent_again_while_another_address_is_acknowledged() {
    let target = KatapultTarget::new(0x0800_2000, 64).unwrap();
    let mut device = Device::new(64);
    device.wrong_acknowledgements = 2;
    assert!(KatapultSession::new(device).upload(&[9], target).is_ok());

    let mut device = Device::new(64);
    device.wrong_acknowledgements = 3;
    assert_eq!(
        KatapultSession::new(device).upload(&[9], target),
        Err(SessionError::AddressMismatch {
            command: Command::SendBlock,
            expected: 0x0800_2000,
            actual: 0x0800_2001
        })
    );
}

#[test]
fn unsupported_geometry_is_refused() {
    for block_size in [64, 128, 256, 512] {
        assert!(KatapultTarget::new(0, block_size).is_ok());
    }
    for block_size in [0, 32, 100, 1024] {
        assert_eq!(
            KatapultTarget::new(0, block_size),
            Err(TargetError::UnsupportedBlockSize { block_size })
        );
    }
    let error = KatapultSession::new(Device::new(32)).connect().unwrap_err();
    assert_eq!(
        error.message(),
        "unsupported target geometry: unsupported Katapult block size: 32"
    );
}

#[test]
fn a_block_beyond_the_address_space_is_refused() {
    let target = KatapultTarget::new(u32::MAX - 63, 64).unwrap();
    let mut device = Device::new(64);
    device.start = u32::MAX - 63;
    assert_eq!(
        KatapultSession::new(device).upload(&[0; 65], target),
        Err(SessionError::AddressOverflow)
    );
}

/// A transport that gives the same reply to everything.
struct Canned(Vec<u8>);

impl Transport for Canned {
    type Error = ();

    fn exchange(&mut self, _request: &[u8]) -> Result<Vec<u8>, ()> {
        Ok(self.0.clone())
    }
}

#[test]
fn short_and_foreign_replies_are_explained() {
    let connect = |frame: Vec<u8>| KatapultSession::new(Canned(frame)).connect().unwrap_err();
    assert_eq!(
        connect(reply(Command::Connect, &[1, 0, 0, 0])).message(),
        "Connect response too short: expected at least 12 bytes, got 4"
    );
    assert_eq!(
        connect(reply(Command::SendEof, &[])).message(),
        format!(
            "no valid response to Connect after retrying: expected command Connect, got 0x{:x}",
            Command::SendEof.code()
        )
    );
    assert_eq!(
        connect(vec![0; 8]).message(),
        "no valid response to Connect after retrying: invalid response: InvalidResponseHeader"
    );
    assert!(matches!(
        KatapultSession::new(Canned(reply(Command::GetCanbusId, &[])))
            .verify_canbus_uuid(1)
            .unwrap_err(),
        SessionError::ResponseDataTooShort {
            command: Command::GetCanbusId,
            expected: 6,
            actual: 0
        }
    ));
    assert_eq!(
        KatapultSession::new(Canned(Vec::new())).command(Command::SendBlock, &[1]),
        Err(SessionError::Encode(FrameError::PayloadNotWordAligned { length: 1 }))
    );
}

/// Serial chunks that arrive one after the other.
struct Chunks {
    written: Vec<u8>,
    incoming: VecDeque<Vec<u8>>,
}

impl SerialIo for Chunks {
    type Error = IoFailure;

    fn write_all(&mut self, bytes: &[u8]) -> Result<(), IoFailure> {
        self.written.extend_from_slice(bytes);
        Ok(())
    }

    fn read(&mut self) -> Result<Vec<u8>, IoFailure> {
        self.incoming.pop_front().ok_or(IoFailure {
            message: "timed out".to_owned(),
        })
    }
}

fn serial(chunks: &[&[u8]]) -> KatapultSerialTransport<Chunks> {
    KatapultSerialTransport::new(Chunks {
        written: Vec::new(),
        incoming: chunks.iter().map(|chunk| chunk.to_vec()).collect(),
    })
}

#[test]
fn serial_replies_are_put_together_from_chunks() {
    let frame = reply(Command::SendEof, &[1, 2, 3, 4]);
    let mut transport = serial(&[&frame[..1], &frame[1..5], &frame[5..]]);
    assert_eq!(transport.exchange(b"request").unwrap(), frame);
    assert_eq!(transport.into_io().written, b"request");

    let mut excess = frame.clone();
    excess.push(0);
    let error = serial(&[&excess]).exchange(b"r").unwrap_err();
    assert_eq!(
        error,
        SerialTransportError::ResponseLengthExceeded {
            expected: 16,
            actual: 17
        }
    );
    assert_eq!(
        error.message(),
        "serial response of 17 bytes exceeds the 16 bytes declared by its header"
    );
    assert_eq!(
        serial(&[&[0; 1000], &[0; 100]]).exchange(b"r").unwrap_err(),
        SerialTransportError::ResponseLengthExceeded {
            expected: 8,
            actual: 1000
        }
    );
    let error = serial(&[&[0; 1029]]).exchange(b"r").unwrap_err();
    assert_eq!(error, SerialTransportError::ResponseTooLarge { length: 1029 });
    let error = serial(&[&frame[..3]]).exchange(b"r").unwrap_err();
    assert_eq!(error.message(), "serial transport error");
    assert_eq!(error.source().as_deref(), Some("timed out"));
}

/// A CAN bus with a Katapult device behind it.
struct Bus {
    sent: Vec<CanFrame>,
    incoming: VecDeque<CanFrame>,
}

impl CanIo for Bus {
    type Error = IoFailure;

    fn write(&mut self, frame: CanFrame) -> Result<(), IoFailure> {
        self.sent.push(frame);
        Ok(())
    }

    fn read(&mut self) -> Result<CanFrame, IoFailure> {
        self.incoming.pop_front().ok_or(IoFailure {
            message: "timed out".to_owned(),
        })
    }
}

const UUID: u64 = 0xe781_9ed8_e7d3;

#[test]
fn can_frames_are_classic_and_standard() {
    let frame = CanFrame::new(0x7ff, &[1, 2]).unwrap();
    assert_eq!((frame.id(), frame.data()), (0x7ff, &[1_u8, 2][..]));
    let error = CanFrame::new(0x800, &[]).unwrap_err();
    assert_eq!(error, CanError::IdentifierOutOfRange { id: 0x800 });
    assert_eq!(
        error.message(),
        "CAN identifier 0x800 does not fit a standard 11-bit CAN frame"
    );
    assert_eq!(
        CanFrame::new(1, &[0; 9]).unwrap_err().message(),
        "CAN payload of 9 bytes exceeds the classic CAN limit of 8 bytes"
    );
    assert_eq!(
        KatapultCanAddress::new(1 << 48).unwrap_err().message(),
        "CAN UUID 0x1000000000000 does not fit Katapult's six-byte CAN UUID field"
    );
}

#[test]
fn can_administration_names_the_uuid() {
    let address = KatapultCanAddress::new(UUID).unwrap();
    let assign = address.assignment_frame();
    assert_eq!(assign.id(), 0x3f0);
    assert_eq!(assign.data(), [0x11, 0xe7, 0x81, 0x9e, 0xd8, 0xe7, 0xd3, 129]);
    let enter = address.bootloader_entry_frame();
    assert_eq!(enter.id(), 0x3f0);
    assert_eq!(enter.data(), [0x02, 0xe7, 0x81, 0x9e, 0xd8, 0xe7, 0xd3]);
    assert_eq!((address.request_id(), address.response_id()), (0x202, 0x203));
}

#[test]
fn requests_are_cut_into_eight_byte_fragments() {
    let address = KatapultCanAddress::new(UUID).unwrap();
    let request: Vec<u8> = (0..19).collect();
    let fragments = address.fragment_request(&request);
    assert_eq!(
        fragments.iter().map(|frame| frame.data().len()).collect::<Vec<_>>(),
        [8, 8, 3]
    );
    assert!(fragments.iter().all(|frame| frame.id() == 0x202));
    let joined: Vec<u8> = fragments.iter().flat_map(|frame| frame.data().to_vec()).collect();
    assert_eq!(joined, request);
    assert!(address.fragment_request(&[]).is_empty());
}

#[test]
fn can_replies_ignore_foreign_traffic() {
    let response = reply(Command::SendEof, &[1, 2, 3, 4]);
    let mut incoming: VecDeque<CanFrame> = response
        .chunks(8)
        .map(|chunk| CanFrame::new(0x203, chunk).unwrap())
        .collect();
    incoming.insert(1, CanFrame::new(0x100, &[9; 8]).unwrap());
    let mut transport = KatapultCanTransport::new(
        Bus {
            sent: Vec::new(),
            incoming,
        },
        KatapultCanAddress::new(UUID).unwrap(),
    );
    assert_eq!(transport.exchange(&[5; 12]).unwrap(), response);
    let error = transport.exchange(&[]).unwrap_err();
    assert_eq!(error.message(), "CAN transport error");
    assert_eq!(error.source().as_deref(), Some("timed out"));
    assert_eq!(transport.into_io().sent.len(), 2);

    let mut transport = KatapultCanTransport::new(
        Bus {
            sent: Vec::new(),
            incoming: VecDeque::from([CanFrame::new(0x203, &[1, 0x88, 0xa0, 0, 0, 0, 0, 0]).unwrap()]),
        },
        KatapultCanAddress::new(UUID).unwrap(),
    );
    assert_eq!(
        transport.exchange(&[]).unwrap(),
        [1, 0x88, 0xa0, 0, 0, 0, 0, 0]
    );
}

#[test]
fn a_can_node_is_entered_before_it_gets_its_number() {
    let bus = Bus {
        sent: Vec::new(),
        incoming: VecDeque::new(),
    };
    let Ok(bootstrap) = request_can_bootloader(bus, UUID) else {
        panic!("the request is sent");
    };
    let Ok(adapter) = bootstrap.connect() else {
        panic!("the number is assigned");
    };
    let sent = adapter.into_transport().into_io().sent;
    assert_eq!(
        sent.iter().map(|frame| frame.data()[0]).collect::<Vec<_>>(),
        [0x02, 0x11]
    );

    let bus = Bus {
        sent: Vec::new(),
        incoming: VecDeque::new(),
    };
    match request_can_bootloader(bus, 1 << 48) {
        Err(error) => assert_eq!(
            error,
            CanBootstrapError::Address(CanError::UuidOutOfRange { uuid: 1 << 48 })
        ),
        Ok(_) => panic!("the UUID has too many bytes"),
    }
    let error: CanBootstrapError<IoFailure> =
        CanBootstrapError::Transport(CanTransportError::ResponseTooLarge { length: 2000 });
    assert_eq!(
        error.message(),
        "CAN response of 2000 bytes exceeds the maximum 1028 bytes"
    );
}

/// A bus that takes `room` frames and refuses every other.
struct FullBus {
    room: usize,
}

impl CanIo for FullBus {
    type Error = IoFailure;

    fn write(&mut self, _frame: CanFrame) -> Result<(), IoFailure> {
        match self.room.checked_sub(1) {
            Some(room) => {
                self.room = room;
                Ok(())
            }
            None => Err(IoFailure {
                message: "no buffer space".to_owned(),
            }),
        }
    }

    fn read(&mut self) -> Result<CanFrame, IoFailure> {
        panic!("neither request has an answer")
    }
}

#[test]
fn a_frame_that_cannot_be_sent_ends_the_bootstrap() {
    let refused = CanBootstrapError::Transport(CanTransportError::Io(IoFailure {
        message: "no buffer space".to_owned(),
    }));
    match request_can_bootloader(FullBus { room: 0 }, UUID) {
        Err(error) => assert_eq!(error, refused),
        Ok(_) => panic!("the request was not sent"),
    }
    let Ok(bootstrap) = request_can_bootloader(FullBus { room: 1 }, UUID) else {
        panic!("the request is sent");
    };
    match bootstrap.connect() {
        Err(error) => assert_eq!(error, refused),
        Ok(_) => panic!("the number was not assigned"),
    }
}

#[test]
fn only_katapult_is_opened_as_a_serial_bootloader() {
    assert_eq!(
        katapult_serial_device(Ok(SelectedUsbBootloader::Katapult {
            sysfs_path: "/sys/1-1".to_owned(),
            serial_device: "/dev/ttyACM0".to_owned(),
        })),
        Ok("/dev/ttyACM0".to_owned())
    );
    let unexpected = katapult_serial_device(Ok(SelectedUsbBootloader::PicoBoot {
        sysfs_path: "/sys/1-1".to_owned(),
    }))
    .unwrap_err();
    assert_eq!(
        unexpected.message(),
        "expected a Katapult bootloader, found PicoBoot { sysfs_path: \"/sys/1-1\" } at the selected topology"
    );
    let selection = katapult_serial_device(Err(
        UsbBootloaderSelectionError::KatapultSerialDeviceMissing("/sys/1-1".to_owned()),
    ))
    .unwrap_err();
    assert_eq!(
        selection.message(),
        "observed bootloader is unsupported or cannot be used safely: Katapult bootloader at /sys/1-1 has no unique serial device"
    );
}

fn prepared(transport: Option<McuTransport>) -> PreparedBuild {
    PreparedBuild {
        target_name: "mcu tool".to_owned(),
        mcu: "rp2040".to_owned(),
        transport,
        request: BuildRequest {
            kconfig: String::new(),
            config_path: String::new(),
            artifact_path: String::new(),
            clean: false,
        },
    }
}

#[test]
fn endpoints_come_from_the_configured_transport() {
    assert_eq!(
        endpoint_for(&prepared(Some(McuTransport::Serial {
            device: "/dev/ttyACM0".to_owned()
        }))),
        Ok(KatapultEndpoint::Serial {
            running_device: "/dev/ttyACM0".to_owned()
        })
    );
    assert_eq!(
        endpoint_for(&prepared(Some(McuTransport::Can {
            interface: "can0".to_owned(),
            uuid: UUID
        }))),
        Ok(KatapultEndpoint::Can {
            interface: "can0".to_owned(),
            uuid: UUID
        })
    );
    let error = endpoint_for(&prepared(None)).unwrap_err();
    assert_eq!(
        error,
        EndpointError::MissingTransport {
            target_name: "mcu tool".to_owned()
        }
    );
    assert_eq!(
        error.message(),
        "moonraker reported neither a serial nor CAN transport for mcu tool"
    );
}

#[test]
fn a_katapult_flash_asks_for_one_operation_after_the_other() {
    let result = FlashResult {
        reported_pages: Some(1),
        padded_bytes: 64,
    };
    let run = KatapultRun::flash_system(&prepared(Some(McuTransport::Can {
        interface: "can0".to_owned(),
        uuid: UUID,
    })))
    .step(KatapultEvent::Done)
    .step(KatapultEvent::Done)
    .step(KatapultEvent::Done);
    assert_eq!(run, KatapultRun::Transfer);
    assert_eq!(
        run.step(KatapultEvent::Transferred(Ok(result))),
        KatapultRun::Finished(Ok(result))
    );

    let failed = |error| match KatapultRun::flash_system(&prepared(Some(McuTransport::Serial {
        device: "/dev/ttyACM0".to_owned(),
    })))
    .step(KatapultEvent::SerialFailed(error))
    {
        KatapultRun::Finished(Err(error)) => error.message(),
        _ => panic!("the entry failed"),
    };
    assert_eq!(
        failed(SerialBootstrapError::Bootloader(UsbBootloaderError::NotDetected {
            device: "/dev/ttyACM0".to_owned(),
            reset_error: Some("busy".to_owned()),
        })),
        "serial bootloader transition failed: Bootloader(NotDetected { device: \"/dev/ttyACM0\", reset_error: Some(\"busy\") })"
    );
    assert_eq!(
        failed(SerialBootstrapError::Selection(
            UsbBootloaderSelectionError::KatapultSerialDeviceMissing("/sys/1-1".to_owned())
        )),
        "serial bootloader transition failed: Selection(KatapultSerialDeviceMissing(\"/sys/1-1\"))"
    );
    let open = |kind| {
        SerialBootstrapError::Open(SerialOpenError {
            kind,
            description: "No \"such\" port".to_owned(),
        })
    };
    assert_eq!(
        open(SerialErrorKind::NoDevice).message(),
        "No \"such\" port"
    );
    for (kind, name) in [
        (SerialErrorKind::NoDevice, "NoDevice"),
        (SerialErrorKind::InvalidInput, "InvalidInput"),
        (SerialErrorKind::Unknown, "Unknown"),
        (SerialErrorKind::Io("NotFound".to_owned()), "Io(NotFound)"),
    ] {
        assert_eq!(
            failed(open(kind)),
            format!(
                "serial bootloader transition failed: \
                 Open(Error {{ kind: {name}, description: \"No \\\"such\\\" port\" }})"
            )
        );
    }
    match KatapultRun::flash_system(&prepared(None)) {
        KatapultRun::Finished(Err(error)) => {
            assert!(matches!(error, SystemKatapultError::Endpoint(_)));
            assert_eq!(
                error.message(),
                "no supported Katapult transport: MissingTransport { target_name: \"mcu tool\" }"
            );
        }
        _ => panic!("there is no transport"),
    }
    assert_eq!(SystemKatapultOptions::standard().baud_rate, 250_000);
}
