//! Validated Katapult endpoints derived from a prepared MCU update.
use vstd::prelude::*;

use crate::moonraker::McuTransport;
use crate::prepare::PreparedBuild;

verus! {

/// The explicit host endpoint used for a Katapult bootloader transition.
#[derive(Clone, Debug, PartialEq, Eq)]
pub enum KatapultEndpoint {
    /// The serial device currently used by the running Klipper application.
    ///
    /// The Katapult bootloader device path is intentionally not inferred from
    /// this path; it must be supplied after the serial device re-enumerates.
    Serial {
        /// The configured serial device for the running application.
        running_device: String,
    },
    /// The configured CAN interface and Katapult CAN identity.
    Can {
        /// The SocketCAN interface.
        interface: String,
        /// The configured six-byte Katapult UUID.
        uuid: u64,
    },
}

/// A prepared MCU cannot be used with the Katapult backend.
#[derive(Clone, Debug, PartialEq, Eq)]
pub enum EndpointError {
    /// Moonraker reported neither a serial nor CAN transport for the target.
    MissingTransport {
        /// Moonraker's MCU object name.
        target_name: String,
    },
}

impl EndpointError {
    /// The wording of this error.
    pub open spec fn text(self) -> Seq<char> {
        match self {
            EndpointError::MissingTransport { target_name } =>
            "moonraker reported neither a serial nor CAN transport for "@ + target_name@,
        }
    }

    /// The wording of this error.
    pub fn message(&self) -> (message: String)
        ensures
            message@ == self.text(),
    {
        match self {
            EndpointError::MissingTransport { target_name } => {
                let mut message: String =
                    "moonraker reported neither a serial nor CAN transport for ".to_owned();
                message.append(target_name.as_str());
                message
            },
        }
    }
}

/// Converts revalidated Moonraker transport data into a Katapult endpoint.
pub fn endpoint_for(prepared: &PreparedBuild) -> (endpoint: Result<
    KatapultEndpoint,
    EndpointError,
>)
    ensures
        endpoint == endpoint_of(*prepared),
{
    match &prepared.transport {
        Some(McuTransport::Serial { device }) => Ok(
            KatapultEndpoint::Serial { running_device: device.clone() },
        ),
        Some(McuTransport::Can { interface, uuid }) => Ok(
            KatapultEndpoint::Can { interface: interface.clone(), uuid: *uuid },
        ),
        None => Err(EndpointError::MissingTransport { target_name: prepared.target_name.clone() }),
    }
}

/// Where the MCU of a prepared build is reached.
pub open spec fn endpoint_of(prepared: PreparedBuild) -> Result<KatapultEndpoint, EndpointError> {
    match prepared.transport {
        Some(McuTransport::Serial { device }) => Ok(
            KatapultEndpoint::Serial { running_device: device },
        ),
        Some(McuTransport::Can { interface, uuid }) => Ok(
            KatapultEndpoint::Can { interface, uuid },
        ),
        None => Err(EndpointError::MissingTransport { target_name: prepared.target_name }),
    }
}

/// An endpoint is of the transport that the MCU was discovered with: its own device, or its own
/// interface and UUID. Without a transport there is none, and the error names the MCU.
pub proof fn law_endpoint_is_of_the_discovered_transport(prepared: PreparedBuild)
    ensures
        ({
            let endpoint = endpoint_of(prepared);
            &&& endpoint is Ok <==> prepared.transport is Some
            &&& endpoint is Ok && endpoint->Ok_0 is Serial ==> prepared.transport->Some_0
                == (McuTransport::Serial { device: endpoint->Ok_0->running_device })
            &&& endpoint is Ok && endpoint->Ok_0 is Can ==> prepared.transport->Some_0
                == (McuTransport::Can {
                interface: endpoint->Ok_0->interface,
                uuid: endpoint->Ok_0->uuid,
            })
            &&& endpoint is Err ==> endpoint->Err_0->target_name == prepared.target_name
        }),
{
}

} // verus!
