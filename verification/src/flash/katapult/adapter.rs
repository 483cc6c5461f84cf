//! Katapult flashing backend assembled from a ready transport session.
use core::fmt;

use vstd::prelude::*;

use crate::bytes;
use crate::flash::katapult;
use crate::flash::katapult::session;
use crate::flash::katapult::session::{
    Exchange,
    KatapultConnection,
    KatapultSession,
    Run,
    SessionError,
    SessionFailure,
    Transport,
    UploadResult,
};
use crate::flash::katapult::Command;
use crate::flash::{FlashBackend, FlashResult};

verus! {

/// A failure while flashing a Katapult target.
#[derive(Clone, Debug, PartialEq, Eq)]
pub enum KatapultFlashError {
    /// Katapult rejected or could not verify a protocol operation.
    Session(SessionError),
}

impl KatapultFlashError {
    /// The wording of this error.
    pub open spec fn text(self) -> Seq<char> {
        match self {
            KatapultFlashError::Session(error) => error.text(),
        }
    }

    /// The wording of this error.
    pub fn message(&self) -> (message: String)
        ensures
            message@ == self.text(),
    {
        match self {
            KatapultFlashError::Session(error) => error.message(),
        }
    }
}

/// The first part of a flash: the connection and, where one is expected, the check of the CAN UUID.
/// It yields the negotiated application start and block size.
pub open spec fn identified_run<E>(
    tape: Seq<Exchange<E>>,
    at: int,
    expected_uuid: Option<u64>,
) -> Run<(u32, nat)> {
    let connected = session::command_run(tape, at, Command::Connect, Seq::empty());
    match connected.result {
        Err(error) => Run {
            result: Err(error),
            next: connected.next,
            faithful: connected.faithful,
        },
        Ok(data) => match session::connection_of(data) {
            Err(error) => Run {
                result: Err(error),
                next: connected.next,
                faithful: connected.faithful,
            },
            Ok((version, start, block_size)) => match expected_uuid {
                None => Run {
                    result: Ok((start, block_size as nat)),
                    next: connected.next,
                    faithful: connected.faithful,
                },
                Some(uuid) => {
                    let asked = session::command_run(
                        tape,
                        connected.next,
                        Command::GetCanbusId,
                        Seq::empty(),
                    );
                    let faithful = connected.faithful && asked.faithful;
                    match asked.result {
                        Err(error) => Run { result: Err(error), next: asked.next, faithful },
                        Ok(answer) => match session::uuid_check(answer, uuid) {
                            Err(error) => Run { result: Err(error), next: asked.next, faithful },
                            Ok(_) => Run {
                                result: Ok((start, block_size as nat)),
                                next: asked.next,
                                faithful,
                            },
                        },
                    }
                },
            },
        },
    }
}

/// A whole flash: the target is identified, the firmware is uploaded and verified, and only then is
/// the application started.
pub open spec fn flash_run<E>(
    tape: Seq<Exchange<E>>,
    at: int,
    expected_uuid: Option<u64>,
    firmware: Seq<u8>,
) -> Run<(u32, nat)> {
    let identified = identified_run(tape, at, expected_uuid);
    match identified.result {
        Err(error) => Run {
            result: Err(error),
            next: identified.next,
            faithful: identified.faithful,
        },
        Ok((start, block_size)) => {
            let uploaded = session::upload_run(tape, identified.next, start, block_size, firmware);
            let faithful = identified.faithful && uploaded.faithful;
            match uploaded.result {
                Err(error) => Run { result: Err(error), next: uploaded.next, faithful },
                Ok(done) => {
                    let completed = session::command_run(
                        tape,
                        uploaded.next,
                        Command::Complete,
                        Seq::empty(),
                    );
                    Run {
                        result: match completed.result {
                            Ok(_) => Ok(done),
                            Err(error) => Err(error),
                        },
                        next: completed.next,
                        faithful: faithful && completed.faithful,
                    }
                },
            }
        },
    }
}

/// A ready Katapult bootloader session that can flash one firmware artifact.
///
/// This backend does not enter a bootloader or assign a CAN node. Callers must
/// perform those transport-specific state changes before constructing it.
pub struct KatapultAdapter<T> {
    session: KatapultSession<T>,
    expected_canbus_uuid: Option<u64>,
}

impl<T> KatapultAdapter<T> {
    /// The underlying transport.
    pub closed spec fn link(&self) -> T {
        self.session.link()
    }

    /// The CAN UUID that the target must report, if any.
    pub closed spec fn expected_uuid(&self) -> Option<u64> {
        self.expected_canbus_uuid
    }

    /// Creates a backend for a serial or otherwise already-identified target.
    pub fn new(transport: T) -> (adapter: Self)
        ensures
            adapter.link() == transport,
            adapter.expected_uuid() is None,
    {
        KatapultAdapter { session: KatapultSession::new(transport), expected_canbus_uuid: None }
    }

    /// Creates a backend that verifies the configured CAN UUID before writing.
    pub fn for_canbus(transport: T, expected_canbus_uuid: u64) -> (adapter: Self)
        ensures
            adapter.link() == transport,
            adapter.expected_uuid() == Some(expected_canbus_uuid),
    {
        KatapultAdapter {
            session: KatapultSession::new(transport),
            expected_canbus_uuid: Some(expected_canbus_uuid),
        }
    }

    /// Returns the underlying transport after the flashing session ends.
    pub fn into_transport(self) -> (transport: T)
        ensures
            transport == self.link(),
    {
        self.session.into_transport()
    }
}

impl<T: Transport> FlashBackend for KatapultAdapter<T> where T::Error: fmt::Debug {
    type Error = KatapultFlashError;

    /// Connects, optionally validates the CAN identity, transfers and verifies
    /// firmware, then starts the application only after successful verification.
    fn flash(&mut self, firmware: &[u8]) -> (result: Result<FlashResult, KatapultFlashError>)
        ensures
            final(self).expected_uuid() == old(self).expected_uuid(),
            session::settles(
                old(self).link().history(),
                final(self).link().history(),
                flash_run(
                    final(self).link().history(),
                    old(self).link().history().len() as int,
                    old(self).expected_uuid(),
                    firmware@,
                ),
                match result {
                    Ok(done) => Ok((done.reported_pages->Some_0, done.padded_bytes as nat)),
                    Err(KatapultFlashError::Session(error)) => Err(error@),
                },
            ),
            match result {
                Ok(done) => done.reported_pages is Some,
                Err(KatapultFlashError::Session(error)) => session::explained(
                    error,
                    final(self).link().history(),
                ),
            },
    {
        let ghost at = self.session.history().len() as int;
        let connection: KatapultConnection = match self.session.connect() {
            Ok(connection) => connection,
            Err(error) => {
                return Err(KatapultFlashError::Session(error));
            },
        };
        let ghost connected = self.session.history();
        if let Some(uuid) = self.expected_canbus_uuid {
            let checked: Result<(), SessionError> = self.session.verify_canbus_uuid(uuid);
            proof {
                session::lemma_command(
                    connected,
                    self.session.history(),
                    at,
                    Command::Connect,
                    Seq::empty(),
                );
            }
            if let Err(error) = checked {
                return Err(KatapultFlashError::Session(error));
            }
        }
        let ghost identified = self.session.history();
        let ghost expected = self.expected_canbus_uuid;
        assert(identified_run(identified, at, expected).result == Ok::<(u32, nat), SessionFailure>(
            (connection.target.start(), connection.target.block()),
        ));
        let uploaded: Result<UploadResult, SessionError> = self.session.upload(
            firmware,
            connection.target,
        );
        let ghost sent = self.session.history();
        proof {
            lemma_identified(identified, sent, at, expected);
        }
        let upload: UploadResult = match uploaded {
            Ok(upload) => upload,
            Err(error) => {
                return Err(KatapultFlashError::Session(error));
            },
        };
        let completed: Result<(), SessionError> = self.session.complete();
        proof {
            let now = self.session.history();
            lemma_identified(identified, now, at, expected);
            session::lemma_upload(
                sent,
                now,
                identified.len() as int,
                connection.target.start(),
                connection.target.block(),
                firmware@,
            );
        }
        if let Err(error) = completed {
            return Err(KatapultFlashError::Session(error));
        }
        Ok(
            FlashResult {
                reported_pages: Some(upload.pages_written),
                padded_bytes: upload.padded_bytes,
            },
        )
    }
}

proof fn lemma_identified<E>(
    tape: Seq<Exchange<E>>,
    longer: Seq<Exchange<E>>,
    at: int,
    expected_uuid: Option<u64>,
)
    requires
        0 <= at,
        tape.is_prefix_of(longer),
        identified_run(tape, at, expected_uuid).next <= tape.len(),
    ensures
        identified_run(longer, at, expected_uuid) == identified_run(tape, at, expected_uuid),
{
    session::lemma_command(tape, longer, at, Command::Connect, Seq::empty());
    let connected = session::command_run(tape, at, Command::Connect, Seq::empty());
    session::lemma_command(tape, longer, connected.next, Command::GetCanbusId, Seq::empty());
}

/// Where a CAN UUID is expected, nothing is written and the application is not started unless the
/// target reports that very UUID: the flash then ends with the check's own error.
pub proof fn law_nothing_is_written_to_a_foreign_node<E>(
    tape: Seq<Exchange<E>>,
    at: int,
    uuid: u64,
    firmware: Seq<u8>,
)
    requires
        identified_run(tape, at, Some(uuid)).result is Err,
    ensures
        flash_run(tape, at, Some(uuid), firmware).next == identified_run(
            tape,
            at,
            Some(uuid),
        ).next,
        flash_run(tape, at, Some(uuid), firmware).result is Err,
{
}

/// The application is started only after the upload was verified: where the upload fails, the flash
/// ends with the upload's last exchange.
pub proof fn law_application_starts_only_after_verification<E>(
    tape: Seq<Exchange<E>>,
    at: int,
    expected_uuid: Option<u64>,
    firmware: Seq<u8>,
)
    ensures
        ({
            let identified = identified_run(tape, at, expected_uuid);
            let target = identified.result->Ok_0;
            let uploaded = session::upload_run(
                tape,
                identified.next,
                target.0,
                target.1,
                firmware,
            );
            let whole = flash_run(tape, at, expected_uuid, firmware);
            &&& whole.result is Ok ==> identified.result is Ok && uploaded.result is Ok
            &&& identified.result is Ok && uploaded.result is Err ==> whole.next == uploaded.next
        }),
{
}

/// A node is identified by what it answers: the start of its application and its block size come
/// from its connection, and where a UUID is expected it is asked for next and must be the expected
/// one.
pub proof fn law_answering_node_is_identified<E>(
    tape: Seq<Exchange<E>>,
    at: int,
    uuid: u64,
    version: Seq<u8>,
    start: u32,
    block_size: u32,
    answer: Seq<u8>,
)
    requires
        version.len() == 4,
        session::supported_block_size(block_size as int),
        session::acknowledges(
            tape[at].reply,
            Command::Connect,
            version + bytes::le_bytes(start as nat, 4) + bytes::le_bytes(block_size as nat, 4),
        ),
        session::fits_a_reply(answer),
        answer.len() >= 6,
        session::acknowledges(tape[at + 1].reply, Command::GetCanbusId, answer),
    ensures
        ({
            let found = 0x100_0000_0000 * answer[0] + 0x1_0000_0000 * answer[1] + 0x100_0000
                * answer[2] + 0x1_0000 * answer[3] + 0x100 * answer[4] + answer[5];
            let unchecked = identified_run(tape, at, None);
            let checked = identified_run(tape, at, Some(uuid));
            &&& unchecked.result == Ok::<(u32, nat), SessionFailure>((start, block_size as nat))
            &&& unchecked.next == at + 1
            &&& checked.next == at + 2
            &&& found == uuid ==> checked.result == Ok::<(u32, nat), SessionFailure>(
                (start, block_size as nat),
            )
            &&& found != uuid ==> checked.result == Err::<(u32, nat), SessionFailure>(
                SessionFailure::CanbusUuidMismatch { expected: uuid, actual: found as u64 },
            )
        }),
{
    let first = bytes::le_bytes(start as nat, 4);
    let second = bytes::le_bytes(block_size as nat, 4);
    bytes::lemma_le_round_trip(start as nat, 4);
    bytes::lemma_le_round_trip(block_size as nat, 4);
    let data = version + first + second;
    session::law_connection_reads_back(version, start, block_size, Seq::empty(), Seq::empty());
    assert(data + Seq::<u8>::empty() =~= data);
    session::lemma_answered_at_once(tape, at, Command::Connect, Seq::empty(), data);
    session::lemma_answered_at_once(tape, at + 1, Command::GetCanbusId, Seq::empty(), answer);
    session::law_node_must_have_the_uuid(answer, uuid);
}

/// A node that was identified, took the upload and acknowledged its end is flashed, and the flash
/// reports what the upload did. One exchange follows the upload.
pub proof fn law_flash_reports_its_upload<E>(
    tape: Seq<Exchange<E>>,
    at: int,
    expected_uuid: Option<u64>,
    firmware: Seq<u8>,
    data: Seq<u8>,
)
    requires
        identified_run(tape, at, expected_uuid).result is Ok,
        session::fits_a_reply(data),
    ensures
        ({
            let identified = identified_run(tape, at, expected_uuid);
            let target = identified.result->Ok_0;
            let uploaded = session::upload_run(
                tape,
                identified.next,
                target.0,
                target.1,
                firmware,
            );
            let whole = flash_run(tape, at, expected_uuid, firmware);
            &&& uploaded.result is Ok && session::acknowledges(
                tape[uploaded.next].reply,
                Command::Complete,
                data,
            ) ==> whole.result == uploaded.result && whole.next == uploaded.next + 1
            &&& uploaded.result is Err ==> whole.result == uploaded.result
        }),
{
    let identified = identified_run(tape, at, expected_uuid);
    let target = identified.result->Ok_0;
    let uploaded = session::upload_run(tape, identified.next, target.0, target.1, firmware);
    if session::acknowledges(tape[uploaded.next].reply, Command::Complete, data) {
        session::lemma_answered_at_once(
            tape,
            uploaded.next,
            Command::Complete,
            Seq::empty(),
            data,
        );
    }
}

/// A flash of an expected node that reports success asked that node for its UUID, got the expected
/// one, and ended with the acknowledged command to start the application.
pub proof fn law_flashed_node_is_the_expected_one<E>(
    tape: Seq<Exchange<E>>,
    at: int,
    uuid: u64,
    firmware: Seq<u8>,
)
    requires
        flash_run(tape, at, Some(uuid), firmware).result is Ok,
        flash_run(tape, at, Some(uuid), firmware).faithful,
    ensures
        ({
            let whole = flash_run(tape, at, Some(uuid), firmware);
            let last = tape[whole.next - 1];
            &&& exists|k: int, answer: Seq<u8>|
                {
                    &&& (#[trigger] tape[k]).request == katapult::frame_of(0x16, Seq::empty())
                    &&& #[trigger] session::acknowledges(
                        tape[k].reply,
                        Command::GetCanbusId,
                        answer,
                    )
                    &&& answer.len() >= 6
                    &&& 0x100_0000_0000 * answer[0] + 0x1_0000_0000 * answer[1] + 0x100_0000
                        * answer[2] + 0x1_0000 * answer[3] + 0x100 * answer[4] + answer[5] == uuid
                }
            &&& last.request == katapult::frame_of(0x15, Seq::empty())
            &&& exists|data: Seq<u8>|
                #[trigger] session::acknowledges(last.reply, Command::Complete, data)
        }),
{
    let connected = session::command_run(tape, at, Command::Connect, Seq::empty());
    let asked = session::command_run(tape, connected.next, Command::GetCanbusId, Seq::empty());
    session::lemma_answered(tape, connected.next, Command::GetCanbusId, Seq::empty());
    let answer = asked.result->Ok_0;
    session::law_node_must_have_the_uuid(answer, uuid);
    assert(session::acknowledges(tape[asked.next - 1].reply, Command::GetCanbusId, answer));
    let identified = identified_run(tape, at, Some(uuid));
    let target = identified.result->Ok_0;
    let uploaded = session::upload_run(tape, identified.next, target.0, target.1, firmware);
    session::lemma_answered(tape, uploaded.next, Command::Complete, Seq::empty());
}

} // verus!
