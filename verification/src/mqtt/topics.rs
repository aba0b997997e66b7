//! The payloads carried on each MQTT topic.  The transport layer maps them
//! to and from its own topic types; these hold the data the logic reads.
use vstd::prelude::*;

use crate::mqtt::homeassistant::Configuration;

verus! {

/// Published on the service-availability topic: "online" or "offline".
#[derive(Debug, PartialEq, Clone)]
pub struct ServiceAvailableTopic {
    pub payload: String,
}

/// Received on a printer's print topic: the target printer and the script
/// to print.
#[derive(Debug, PartialEq, Clone)]
pub struct PrintJobTopic {
    pub printer: String,
    pub payload: String,
}

/// Published on the Home Assistant discovery topic; an absent payload
/// retracts the announcement.
#[derive(Debug, PartialEq, Clone)]
pub struct HomeAssistantDiscoveryTopic {
    pub domain: String,
    pub id: String,
    pub payload: Option<Configuration>,
}

} // verus!
