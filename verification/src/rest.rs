//! Where the control plane of a server is reached.

use crate::ids;
use crate::ids::uuid_display;
use crate::text::joined;
use vstd::prelude::*;
use vstd::string::*;

verus! {

pub fn health_url(server: &str) -> (r: String)
    ensures
        r@ == server@ + "/health"@,
{
    joined(server, "/health")
}

pub fn transfers_url(server: &str) -> (r: String)
    ensures
        r@ == server@ + "/v1/transfers"@,
{
    joined(server, "/v1/transfers")
}

pub fn transfer_url(server: &str, transfer_id: u128) -> (r: String)
    ensures
        r@ == server@ + "/v1/transfers/"@ + ids::id_text(transfer_id),
{
    let mut url = joined(server, "/v1/transfers/");
    url.append(uuid_display(transfer_id).as_str());
    url
}

pub fn quic_certificate_url(server: &str) -> (r: String)
    ensures
        r@ == server@ + "/v1/quic/certificate"@,
{
    joined(server, "/v1/quic/certificate")
}

} // verus!
