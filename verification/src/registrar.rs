use crate::error::ErrorCode;
use crate::records::Record;
use vstd::prelude::*;

verus! {

/// `mdns_sd::ServiceInfo`, carried through as an opaque value.
#[verifier::external_type_specification]
#[verifier::external_body]
pub struct ExServiceInfo(mdns_sd::ServiceInfo);

/// `mdns_sd::Error`, carried through as an opaque value.
#[verifier::external_type_specification]
#[verifier::external_body]
pub struct ExServiceInfoError(mdns_sd::Error);

/// Whether `mdns_sd::ServiceInfo::new` makes a service description from a
/// record's name, instance, host, address text, port and TXT pairs. It
/// refuses an address text that does not parse and TXT pairs that do not fit
/// a TXT record.
pub uninterp spec fn service_info_accepted(
    name: Seq<char>,
    instance: Seq<char>,
    host: Seq<char>,
    address: Seq<char>,
    port: u16,
    txt_kvs: Seq<(Seq<char>, Seq<char>)>,
) -> bool;

/// Calls `mdns_sd::ServiceInfo::new` on the fields of a record. The call
/// reads nothing but its arguments, so whether it succeeds is a function of
/// them; nothing is claimed of the description that it returns.
#[verifier::external_body]
fn new_service_info(record: &Record) -> (r: Result<mdns_sd::ServiceInfo, mdns_sd::Error>)
    ensures
        r is Ok == service_info_accepted(
            record@.name,
            record@.instance,
            record@.host,
            record@.address,
            record@.port,
            record@.txt_kvs,
        ),
{
    mdns_sd::ServiceInfo::new(
        record.name.as_str(),
        record.instance.as_str(),
        record.host.as_str(),
        record.address.as_str(),
        record.port,
        record.txt_kvs.as_slice(),
    )
}

/// Whether the registrar's library takes the record.
pub open spec fn acceptable(record: crate::records::RecordView) -> bool {
    service_info_accepted(
        record.name,
        record.instance,
        record.host,
        record.address,
        record.port,
        record.txt_kvs,
    )
}

/// The answer for a record, given what making its service description
/// returned: the description, or `RegistrationFailed` in place of any error.
pub fn description_or_failure(made: Result<mdns_sd::ServiceInfo, mdns_sd::Error>) -> (r: Result<
    mdns_sd::ServiceInfo,
    ErrorCode,
>)
    ensures
        made is Ok ==> r == Ok::<mdns_sd::ServiceInfo, ErrorCode>(made->Ok_0),
        made is Err ==> r == Err::<mdns_sd::ServiceInfo, ErrorCode>(ErrorCode::RegistrationFailed),
{
    match made {
        Ok(info) => Ok(info),
        Err(_) => Err(ErrorCode::RegistrationFailed),
    }
}

/// Turns a record into the service description that the registrar takes.
/// A record that the registrar's library refuses is answered with
/// `RegistrationFailed`.
pub fn to_service_info(record: &Record) -> (r: Result<mdns_sd::ServiceInfo, ErrorCode>)
    ensures
        r is Ok <==> acceptable(record@),
        r is Err ==> r->Err_0 == ErrorCode::RegistrationFailed,
{
    description_or_failure(new_service_info(record))
}

} // verus!
