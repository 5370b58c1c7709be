//! Which USB interface and which endpoints of a probe carry its commands.
use vstd::prelude::*;
use crate::pieces::{upper, upper_of};
use crate::text::{chars_of, contains, has_text, law_contains_within};

verus! {

/// An interface of a USB device.
#[derive(Debug)]
pub struct UsbInterface {
    pub number: u8,
    pub class: u8,
    pub name: Option<String>,
}

/// A vendor-specific interface.
pub open spec fn is_vendor(i: UsbInterface) -> bool {
    i.class == 0xff
}

/// A vendor interface whose string names CMSIS-DAP, in whatever case: the v2 one
/// with bulk endpoints.
pub open spec fn names_cmsisdap(i: UsbInterface) -> bool {
    is_vendor(i) && match i.name {
        Some(s) => contains(upper(s@), "CMSIS-DAP"@),
        None => false,
    }
}

/// The first interface from `i` on that is a vendor interface and, if asked for,
/// names CMSIS-DAP.
pub open spec fn first_vendor(all: Seq<UsbInterface>, named: bool, i: int) -> Option<u8>
    decreases all.len() - i,
{
    if i < 0 || i >= all.len() {
        None
    } else if is_vendor(all[i]) && (named ==> names_cmsisdap(all[i])) {
        Some(all[i].number)
    } else {
        first_vendor(all, named, i + 1)
    }
}

fn find_vendor(all: &[UsbInterface], named: bool) -> (r: Option<u8>)
    ensures
        r == first_vendor(all@, named, 0),
{
    let mut i: usize = 0;
    while i < all.len()
        invariant
            i <= all@.len(),
            first_vendor(all@, named, 0) == first_vendor(all@, named, i as int),
        decreases all.len() - i,
    {
        if all[i].class == 0xff {
            if !named {
                return Some(all[i].number);
            }
            if let Some(name) = &all[i].name {
                let text = upper_of(chars_of(name.as_str()).as_slice());
                if has_text(text.as_slice(), "CMSIS-DAP") {
                    return Some(all[i].number);
                }
            }
        }
        i += 1;
    }
    None
}

/// The interface that carries the commands of a CMSIS-DAP probe.
pub open spec fn command_interface(all: Seq<UsbInterface>) -> Option<u8> {
    match first_vendor(all, true, 0) {
        Some(n) => Some(n),
        None => first_vendor(all, false, 0),
    }
}

/// The interface that a CMSIS-DAP v2 probe is spoken to through: the first vendor
/// interface that names CMSIS-DAP, or else the first vendor interface.
pub fn cmsisdap_interface(all: &[UsbInterface]) -> (r: Result<u8, String>)
    ensures
        r is Ok <==> command_interface(all@) is Some,
        r matches Ok(n) ==> command_interface(all@) == Some(n),
        match r {
            Ok(n) => first_vendor(all@, true, 0) == Some(n) || first_vendor(all@, true, 0) is None
                && first_vendor(all@, false, 0) == Some(n),
            Err(why) => first_vendor(all@, true, 0) is None && first_vendor(all@, false, 0) is None
                && why@ == "no CMSIS-DAP vendor interface found"@,
        },
{
    if let Some(n) = find_vendor(all, true) {
        return Ok(n);
    }
    match find_vendor(all, false) {
        Some(n) => Ok(n),
        None => Err("no CMSIS-DAP vendor interface found".to_string()),
    }
}

/// The first endpoint from `i` on of a direction. Bit 7 of an address says that the
/// endpoint sends to the host.
pub open spec fn first_endpoint(addresses: Seq<u8>, to_host: bool, i: int) -> Option<u8>
    decreases addresses.len() - i,
{
    if i < 0 || i >= addresses.len() {
        None
    } else if (addresses[i] >= 0x80) == to_host {
        Some(addresses[i])
    } else {
        first_endpoint(addresses, to_host, i + 1)
    }
}

fn find_endpoint(addresses: &[u8], to_host: bool) -> (r: Option<u8>)
    ensures
        r == first_endpoint(addresses@, to_host, 0),
{
    let mut i: usize = 0;
    while i < addresses.len()
        invariant
            i <= addresses@.len(),
            first_endpoint(addresses@, to_host, 0) == first_endpoint(
                addresses@,
                to_host,
                i as int,
            ),
        decreases addresses.len() - i,
    {
        if (addresses[i] >= 0x80) == to_host {
            return Some(addresses[i]);
        }
        i += 1;
    }
    None
}

/// The endpoints that commands and replies go through. The CMSIS-DAP v2 interface
/// carries only bulk endpoints (OUT, IN, and optionally a second IN for trace
/// data): the first OUT and the first IN are taken.
pub fn bulk_endpoints(addresses: &[u8]) -> (r: Result<(u8, u8), String>)
    ensures
        match r {
            Ok((out, inp)) => first_endpoint(addresses@, false, 0) == Some(out) && first_endpoint(
                addresses@,
                true,
                0,
            ) == Some(inp),
            Err(why) => if first_endpoint(addresses@, false, 0) is None {
                why@ == "no bulk OUT endpoint"@
            } else {
                first_endpoint(addresses@, true, 0) is None && why@ == "no bulk IN endpoint"@
            },
        },
{
    match (find_endpoint(addresses, false), find_endpoint(addresses, true)) {
        (None, _) => Err("no bulk OUT endpoint".to_string()),
        (Some(_), None) => Err("no bulk IN endpoint".to_string()),
        (Some(out), Some(inp)) => Ok((out, inp)),
    }
}

/// The interface that an ST-Link is spoken to through: its first vendor interface,
/// or interface 0 where none says so.
pub fn stlink_interface(all: &[UsbInterface]) -> (r: u8)
    ensures
        r == match first_vendor(all@, false, 0) {
            Some(n) => n,
            None => 0u8,
        },
{
    match find_vendor(all, false) {
        Some(n) => n,
        None => 0,
    }
}

/// The endpoint that commands go to, by product.
pub open spec fn command_endpoint(pid: u16) -> u8 {
    if pid == 0x3748 {
        0x02
    } else {
        0x01
    }
}

/// The endpoint that an ST-Link takes commands from: 0x02 on the original V2, 0x01
/// on every other. All of them reply through 0x81.
pub fn stlink_out_endpoint(pid: u16) -> (r: u8)
    ensures
        r == command_endpoint(pid),
        r == if pid == 0x3748 {
            0x02u8
        } else {
            0x01u8
        },
{
    if pid == 0x3748 {
        0x02
    } else {
        0x01
    }
}

/// The interface is the first one that qualifies: of the vendor class, and naming
/// CMSIS-DAP where that is asked for.
pub proof fn law_first_interface_that_qualifies(all: Seq<UsbInterface>, named: bool, i: int, k: int)
    requires
        0 <= i <= k <= all.len(),
        forall|j: int|
            i <= j < k ==> (#[trigger] all[j]).class != 0xff || named && !names_cmsisdap(all[j]),
        k < all.len() ==> all[k].class == 0xff && (named ==> names_cmsisdap(all[k])),
    ensures
        k < all.len() ==> first_vendor(all, named, i) == Some(all[k].number),
        k == all.len() ==> first_vendor(all, named, i) is None,
    decreases k - i,
{
    if i < k {
        assert(all[i].class != 0xff || named && !names_cmsisdap(all[i]));
        law_first_interface_that_qualifies(all, named, i + 1, k);
    }
}

/// An interface names CMSIS-DAP where the words stand in its string, in whatever case,
/// and its class is that of a vendor.
pub proof fn law_cmsisdap_is_named_in_any_case(
    i: UsbInterface,
    a: Seq<char>,
    name: Seq<char>,
    b: Seq<char>,
)
    requires
        i.name matches Some(s) && s@ == a + name + b,
        upper(name) == "CMSIS-DAP"@,
    ensures
        names_cmsisdap(i) <==> i.class == 0xff,
{
    let whole = a + name + b;
    assert(upper(whole) =~= upper(a) + upper(name) + upper(b));
    law_contains_within(upper(a), upper(name), upper(b));
}

/// The endpoint of a direction is the first one with bit 7 of its address as the
/// direction asks: set towards the host, clear away from it.
pub proof fn law_first_endpoint_of_the_direction(
    addresses: Seq<u8>,
    to_host: bool,
    i: int,
    k: int,
)
    requires
        0 <= i <= k <= addresses.len(),
        forall|j: int| i <= j < k ==> ((#[trigger] addresses[j]) / 128 == 1) != to_host,
        k < addresses.len() ==> (addresses[k] / 128 == 1) == to_host,
    ensures
        k < addresses.len() ==> first_endpoint(addresses, to_host, i) == Some(addresses[k]),
        k == addresses.len() ==> first_endpoint(addresses, to_host, i) is None,
    decreases k - i,
{
    if i < k {
        assert((addresses[i] / 128 == 1) != to_host);
        law_first_endpoint_of_the_direction(addresses, to_host, i + 1, k);
    }
}

/// An interface that names CMSIS-DAP goes before one that does not, wherever it stands;
/// without such a one the first vendor interface is taken. Only the original V2 takes its
/// commands at the second endpoint.
pub proof fn law_named_interface_goes_first(all: Seq<UsbInterface>, pid: u16)
    ensures
        first_vendor(all, true, 0) matches Some(n) ==> command_interface(all) == Some(n),
        first_vendor(all, true, 0) is None ==> command_interface(all) == first_vendor(
            all,
            false,
            0,
        ),
        command_endpoint(pid) == 2 <==> pid == 0x3748,
        command_endpoint(pid) == 1 <==> pid != 0x3748,
{
}

} // verus!
