use vstd::prelude::*;
use vstd::utf8::{decode_utf8, valid_utf8};

use crate::addr::IpAddr;
use crate::error::Error;
use crate::text::{digits, ip_text, push_digits, push_ip};

verus! {

/// What `{:?}` prints for a string: the text in double quotes, with quotes,
/// backslashes and non-printable characters escaped.
pub uninterp spec fn debug_quoted(s: Seq<char>) -> Seq<char>;

/// The text that GBK decoding gives for these bytes (a leading byte-order
/// mark selects its own encoding; malformed sequences become U+FFFD).
pub uninterp spec fn gbk_decoded(b: Seq<u8>) -> Seq<char>;

/// Relies on `<str as Debug>::fmt`, through `format!("{:?}")`: quotes and
/// escapes a string, as a function of its characters alone.
#[verifier::external_body]
fn quoted(s: &str) -> (r: String)
    ensures
        r@ == debug_quoted(s@),
{
    format!("{:?}", s)
}

/// Relies on `std::str::from_utf8`: succeeds exactly on well-formed UTF-8,
/// and then gives the characters the bytes encode.
#[verifier::external_body]
fn utf8_text(b: &[u8]) -> (r: Option<String>)
    ensures
        r is Some <==> valid_utf8(b@),
        r matches Some(s) ==> s@ == decode_utf8(b@),
{
    match std::str::from_utf8(b) {
        Ok(s) => Some(s.to_owned()),
        Err(_) => None,
    }
}

/// Relies on `encoding_rs::GBK.decode`: decodes bytes of the GBK codepage,
/// with byte-order-mark sniffing and replacement of malformed sequences, as
/// a function of the bytes alone.
#[verifier::external_body]
fn gbk_to_utf8(b: &[u8]) -> (r: String)
    ensures
        r@ == gbk_decoded(b@),
{
    let (msg, _, _) = encoding_rs::GBK.decode(b);
    msg.into_owned()
}

/// The command line that renames an interface.
pub fn set_interface_name(old_name: &str, new_name: &str) -> (r: String)
    ensures
        r@ == " netsh interface set interface name="@ + debug_quoted(old_name@) + " newname="@
            + debug_quoted(new_name@),
{
    let mut s = " netsh interface set interface name=".to_owned();
    s.append(quoted(old_name).as_str());
    s.append(" newname=");
    s.append(quoted(new_name).as_str());
    s
}

/// The command line that sets the routing metric of the interface with the
/// given index.
pub fn set_interface_metric(index: u32, metric: u16) -> (r: String)
    ensures
        r@ == "netsh interface ip set interface "@ + digits(index as nat, false) + " metric="@ + digits(
            metric as nat,
            false,
        ),
{
    let mut s = "netsh interface ip set interface ".to_owned();
    push_digits(&mut s, index as u64, false);
    s.append(" metric=");
    push_digits(&mut s, metric as u64, false);
    s
}

/// The command line that sets, persistently, the MTU of the interface with
/// the given index.
pub fn set_interface_mtu(index: u32, mtu: u32) -> (r: String)
    ensures
        r@ == "netsh interface ipv4 set subinterface "@ + digits(index as nat, false) + "  mtu="@
            + digits(mtu as nat, false) + " store=persistent"@,
{
    let mut s = "netsh interface ipv4 set subinterface ".to_owned();
    push_digits(&mut s, index as u64, false);
    s.append("  mtu=");
    push_digits(&mut s, mtu as u64, false);
    s.append(" store=persistent");
    s
}

/// The arguments given to `netsh` to set the static address, mask and
/// optional gateway of the interface with the given index.
pub open spec fn interface_ip_args(
    index: u32,
    address: IpAddr,
    netmask: IpAddr,
    gateway: Option<IpAddr>,
) -> Seq<Seq<char>> {
    seq![
        "interface"@,
        if address is V4 { "ipv4"@ } else { "ipv6"@ },
        "set"@,
        "address"@,
        digits(index as nat, false),
        "source=static"@,
        "address="@ + ip_text(address),
        "mask="@ + ip_text(netmask),
    ] + match gateway {
        Some(g) => seq!["gateway="@ + ip_text(g)],
        None => Seq::empty(),
    }
}

/// The arguments given to `netsh` to set the static address, mask and
/// optional gateway of the interface with the given index.
pub fn set_interface_ip(index: u32, address: IpAddr, netmask: IpAddr, gateway: Option<IpAddr>) -> (r:
    Vec<String>)
    ensures
        r@.len() == interface_ip_args(index, address, netmask, gateway).len(),
        forall|i: int|
            0 <= i < r@.len() ==> #[trigger] r@[i]@ == interface_ip_args(
                index,
                address,
                netmask,
                gateway,
            )[i],
{
    let mut args: Vec<String> = Vec::new();
    args.push("interface".to_owned());
    args.push(
        match address {
            IpAddr::V4(_) => "ipv4".to_owned(),
            IpAddr::V6(_) => "ipv6".to_owned(),
        },
    );
    args.push("set".to_owned());
    args.push("address".to_owned());
    let mut idx = String::new();
    push_digits(&mut idx, index as u64, false);
    args.push(idx);
    args.push("source=static".to_owned());
    let mut a = "address=".to_owned();
    push_ip(&mut a, address);
    args.push(a);
    let mut m = "mask=".to_owned();
    push_ip(&mut m, netmask);
    args.push(m);
    if let Some(g) = gateway {
        let mut t = "gateway=".to_owned();
        push_ip(&mut t, g);
        args.push(t);
    }
    proof {
        let want = interface_ip_args(index, address, netmask, gateway);
        assert(args@.len() == want.len());
        assert forall|i: int| 0 <= i < args@.len() implies #[trigger] args@[i]@ == want[i] by {
            assert(Seq::<char>::empty() + digits(index as nat, false) == digits(index as nat, false));
        }
    }
    args
}

/// The text of a command's output: UTF-8 where the bytes are well formed,
/// else the GBK codepage.
pub open spec fn output_text(b: Seq<u8>) -> Seq<char> {
    if valid_utf8(b) {
        decode_utf8(b)
    } else {
        gbk_decoded(b)
    }
}

/// The message of a failed command: its standard error if there is any,
/// else its standard output, else nothing.
pub open spec fn failure_message(stderr: Seq<u8>, stdout: Seq<u8>) -> Seq<char> {
    if stderr.len() > 0 {
        output_text(stderr)
    } else if stdout.len() > 0 {
        output_text(stdout)
    } else {
        Seq::empty()
    }
}

fn decode_output(b: &[u8]) -> (r: String)
    ensures
        r@ == output_text(b@),
{
    match utf8_text(b) {
        Some(s) => s,
        None => gbk_to_utf8(b),
    }
}

/// The outcome of a configuration command that has run: success when it
/// exited with success, else an error whose message holds the command and
/// what it printed.
pub fn output(cmd: &str, success: bool, stderr: &[u8], stdout: &[u8]) -> (r: Result<(), Error>)
    ensures
        success <==> r is Ok,
        r matches Err(e) ==> e matches Error::Command { message } && message@ == "cmd="@
            + debug_quoted(cmd@) + ",out="@ + debug_quoted(failure_message(stderr@, stdout@)),
{
    if success {
        return Ok(());
    }
    let msg = if stderr.len() > 0 {
        decode_output(stderr)
    } else if stdout.len() > 0 {
        decode_output(stdout)
    } else {
        String::new()
    };
    let mut message = "cmd=".to_owned();
    message.append(quoted(cmd).as_str());
    message.append(",out=");
    message.append(quoted(msg.as_str()).as_str());
    Err(Error::Command { message })
}

} // verus!
