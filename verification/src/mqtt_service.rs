//! The decisions behind the MQTT service loop.
//!
//! The loop itself lives in the runtime (it awaits broker messages and
//! registry events); what it decides for each message, and what it
//! publishes for each registry event, is specified and checked here.
use vstd::prelude::*;

use crate::mqtt::homeassistant::{Configuration, Domain, domain_name};
use crate::program::parser::parse_program_at;
use crate::program::Program;

verus! {

/// What the service does with one incoming print request.
#[derive(Debug, PartialEq, Clone)]
pub enum PrintJobPlan {
    /// The target id is not registered: report failure to the caller and
    /// touch no device.
    UnknownPrinter,
    /// The script did not parse in full; the unparsed tail is carried for
    /// the error report.  Nothing is printed.
    IncompleteParse(String),
    /// Render this program and submit it to the target's actor.
    Print(Program),
}

/// Decide what to do with a print request for a (possibly unknown) target.
/// The script is parsed in full or not at all: leftover input rejects the
/// whole job.
pub fn plan_print_job(printer_known: bool, payload: &str) -> (r: PrintJobPlan)
    ensures
        !printer_known ==> r == PrintJobPlan::UnknownPrinter,
        printer_known && parse_program_at(payload@, 0).1 != payload@.len() ==> (r matches
            PrintJobPlan::IncompleteParse(rest) && rest@ == payload@.subrange(
            parse_program_at(payload@, 0).1,
            payload@.len() as int,
        )),
        printer_known && parse_program_at(payload@, 0).1 == payload@.len() ==> (r matches
            PrintJobPlan::Print(prog) && prog@ == parse_program_at(payload@, 0).0),
{
    if !printer_known {
        return PrintJobPlan::UnknownPrinter;
    }
    match Program::parse(payload) {
        Ok((leftover, program)) => {
            if !leftover.is_empty() {
                PrintJobPlan::IncompleteParse(leftover.to_owned())
            } else {
                proof {
                    assert(payload@.subrange(
                        parse_program_at(payload@, 0).1,
                        payload@.len() as int,
                    ).len() == 0);
                }
                PrintJobPlan::Print(program)
            }
        },
        Err(_) => {
            proof {
                assert(false);
            }
            PrintJobPlan::UnknownPrinter
        },
    }
}

/// The discovery record announced for a printer that entered the registry:
/// a notify entity named "Receipt" whose command topic is the printer's
/// print topic, tied to the shared availability topic, with the device
/// described as its model and description.
pub fn discovery_configuration(
    printer_id: &str,
    printer_name: &str,
    printer_description: &str,
    model_name: &str,
) -> (r: Configuration)
    ensures
        r@.name == "Receipt"@,
        r@.command_topic == "escpos/"@ + printer_id@ + "/print"@,
        r@.availability_topic == "escpos/available"@,
        r@.unique_id == printer_id@,
        r@.device.identifiers == seq![printer_id@],
        r@.device.name == printer_name@,
        r@.device.model == model_name@ + " - "@ + printer_description@,
        r@._domain == Domain::Notify,
{
    let mut command_topic = String::from_str("escpos/");
    command_topic.append(printer_id);
    command_topic.append("/print");
    let mut device_model = model_name.to_owned();
    device_model.append(" - ");
    device_model.append(printer_description);
    proof {
        assert(command_topic@ =~= "escpos/"@ + printer_id@ + "/print"@);
        assert(device_model@ =~= model_name@ + " - "@ + printer_description@);
    }
    Configuration::new(
        Domain::Notify,
        "Receipt",
        command_topic.as_str(),
        "escpos/available",
        printer_id,
        printer_id,
        printer_name,
        device_model.as_str(),
    )
}

/// The discovery-topic coordinates under which a printer is announced or
/// retracted: the domain's path form and the printer id.
pub fn discovery_topic_parts(printer_id: &str) -> (r: (String, String))
    ensures
        r.0@ == domain_name(Domain::Notify),
        r.1@ == printer_id@,
{
    (Domain::Notify.to_string(), printer_id.to_owned())
}

} // verus!
