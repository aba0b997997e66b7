//! The Home Assistant MQTT discovery record for a printer.
use vstd::prelude::*;

verus! {

/// The Home Assistant integration domain a printer is announced under.
#[derive(Debug, PartialEq, Eq, Structural, Clone, Copy)]
pub enum Domain {
    Notify,
}

/// How a domain appears in topic paths.
pub open spec fn domain_name(d: Domain) -> Seq<char> {
    match d {
        Domain::Notify => "notify"@,
    }
}

impl Domain {
    /// The domain's topic-path form.
    pub fn to_string(&self) -> (r: String)
        ensures
            r@ == domain_name(*self),
    {
        match self {
            Domain::Notify => String::from_str("notify"),
        }
    }
}

/// The device block of a discovery record.
#[derive(Debug, PartialEq, Clone)]
pub struct Device {
    pub identifiers: Vec<String>,
    pub name: String,
    pub model: String,
}

/// Mathematical model of a device block.
pub struct DeviceModel {
    pub identifiers: Seq<Seq<char>>,
    pub name: Seq<char>,
    pub model: Seq<char>,
}

impl View for Device {
    type V = DeviceModel;

    open spec fn view(&self) -> DeviceModel {
        DeviceModel {
            identifiers: self.identifiers@.map_values(|s: String| s@),
            name: self.name@,
            model: self.model@,
        }
    }
}

/// A discovery record, ready to be serialized and published.
#[derive(Debug, PartialEq, Clone)]
pub struct Configuration {
    pub name: String,
    pub command_topic: String,
    pub availability_topic: String,
    pub unique_id: String,
    pub device: Device,
    pub _domain: Domain,
}

/// Mathematical model of a discovery record.
pub struct ConfigurationModel {
    pub name: Seq<char>,
    pub command_topic: Seq<char>,
    pub availability_topic: Seq<char>,
    pub unique_id: Seq<char>,
    pub device: DeviceModel,
    pub _domain: Domain,
}

impl View for Configuration {
    type V = ConfigurationModel;

    open spec fn view(&self) -> ConfigurationModel {
        ConfigurationModel {
            name: self.name@,
            command_topic: self.command_topic@,
            availability_topic: self.availability_topic@,
            unique_id: self.unique_id@,
            device: self.device@,
            _domain: self._domain,
        }
    }
}

impl Configuration {
    /// Assemble a discovery record; the device block lists exactly the one
    /// given identifier.
    pub fn new(
        domain: Domain,
        name: &str,
        command_topic: &str,
        availability_topic: &str,
        unique_id: &str,
        device_id: &str,
        device_name: &str,
        device_model: &str,
    ) -> (r: Configuration)
        ensures
            r@.name == name@,
            r@.command_topic == command_topic@,
            r@.availability_topic == availability_topic@,
            r@.unique_id == unique_id@,
            r@.device.name == device_name@,
            r@.device.model == device_model@,
            r@.device.identifiers == seq![device_id@],
            r@._domain == domain,
    {
        let mut identifiers: Vec<String> = Vec::new();
        identifiers.push(device_id.to_owned());
        let r = Configuration {
            name: name.to_owned(),
            command_topic: command_topic.to_owned(),
            availability_topic: availability_topic.to_owned(),
            unique_id: unique_id.to_owned(),
            device: Device {
                identifiers,
                name: device_name.to_owned(),
                model: device_model.to_owned(),
            },
            _domain: domain,
        };
        proof {
            assert(r@.device.identifiers =~= seq![device_id@]);
        }
        r
    }

    /// The topic this record is published under.
    pub fn configuration_topic(&self) -> (r: String)
        ensures
            r@ == "homeassistant/"@ + domain_name(self._domain) + "/"@ + self.unique_id@
                + "/config"@,
    {
        let mut r = String::from_str("homeassistant/");
        let domain = self._domain.to_string();
        r.append(domain.as_str());
        r.append("/");
        r.append(self.unique_id.as_str());
        r.append("/config");
        proof {
            assert(r@ =~= "homeassistant/"@ + domain_name(self._domain) + "/"@ + self.unique_id@
                + "/config"@);
        }
        r
    }
}

} // verus!
