//! SQL Server Browser (UDP 1434): the request byte 0x02, answered by 0x05,
//! a length byte, a reserved byte and `key;value;...` text.

use vstd::prelude::*;
use crate::devices::{Device, DeviceView, views};
use crate::ip::IpAddr;
use crate::protocols::common::{split_on, split_exec, char_views, chars_eq, make_device, lit};
use crate::text::{lossy_utf8, utf8_lossy, slice_vec};

verus! {

pub const PORT: u16 = 1434;

pub fn build_probe() -> (p: [u8; 1])
    ensures
        p@ == seq![0x02u8],
{
    let p = [0x02u8];
    assert(p@ =~= seq![0x02u8]);
    p
}

/// Server and instance names read so far.
pub struct SqlNames {
    pub server: Option<Seq<char>>,
    pub instance: Option<Seq<char>>,
}

/// The pieces read as `key;value` pairs from `i`, stopping at an empty key
/// or when no value follows; later pairs win.
pub open spec fn sql_pairs(parts: Seq<Seq<char>>, i: int, st: SqlNames) -> SqlNames
    decreases parts.len() - i,
{
    if i < 0 || i + 1 >= parts.len() || parts[i].len() == 0 {
        st
    } else {
        let v = parts[i + 1];
        let st2 = if parts[i] == "ServerName"@ {
            SqlNames { server: Some(v), ..st }
        } else if parts[i] == "InstanceName"@ {
            SqlNames { instance: Some(v), ..st }
        } else {
            st
        };
        sql_pairs(parts, i + 2, st2)
    }
}

/// The device of an answer from `from`: 0x05 first and a length byte equal
/// to the text's length; the type is the instance name, the serial the
/// server name (`Unknown` when absent).
pub open spec fn mssql_devices(from: IpAddr, d: Seq<u8>) -> Seq<DeviceView> {
    if d.len() < 3 || d[0] != 0x05 || d[1] as int != d.len() - 3 {
        Seq::empty()
    } else {
        let parts = split_on(lossy_utf8(d.subrange(3, d.len() as int)), ';');
        let names = sql_pairs(parts, 0, SqlNames { server: None, instance: None });
        seq![DeviceView {
            protocol: "MSSQL"@,
            version: 1,
            ip: from,
            mac: Seq::empty(),
            device_type: match names.instance {
                Some(v) => v,
                None => "Unknown"@,
            },
            serial: match names.server {
                Some(v) => v,
                None => "Unknown"@,
            },
        }]
    }
}

pub open spec fn opt_chars(o: Option<Vec<char>>) -> Option<Seq<char>> {
    match o {
        Some(v) => Some(v@),
        None => None,
    }
}

pub fn parse(from: IpAddr, data: &[u8]) -> (devs: Vec<Device>)
    ensures
        views(devs@) == mssql_devices(from, data@),
{
    let mut out: Vec<Device> = Vec::new();
    let n = data.len();
    if n < 3 || data[0] != 0x05 || data[1] as usize != n - 3 {
        return out;
    }
    let body = slice_vec(data, 3, n);
    let text = utf8_lossy(body.as_slice());
    let parts = split_exec(text.as_slice(), ';');
    let ghost ps = char_views(parts@);
    let mut server: Option<Vec<char>> = None;
    let mut instance: Option<Vec<char>> = None;
    let mut i: usize = 0;
    let mut go = true;
    while go && i < parts.len() && parts.len() - i > 1
        invariant
            ps == char_views(parts@),
            i <= parts@.len(),
            go ==> sql_pairs(ps, 0, SqlNames { server: None, instance: None })
                == sql_pairs(ps, i as int, SqlNames { server: opt_chars(server), instance: opt_chars(instance) }),
            !go ==> sql_pairs(ps, 0, SqlNames { server: None, instance: None })
                == (SqlNames { server: opt_chars(server), instance: opt_chars(instance) }),
        decreases parts@.len() - i + (if go { 1int } else { 0int }),
    {
        if parts[i].len() == 0 {
            go = false;
        } else {
            let v = slice_vec(parts[i + 1].as_slice(), 0, parts[i + 1].len());
            assert(v@ =~= ps[i + 1]);
            assert(parts[i as int]@ == ps[i as int]);
            if chars_eq(parts[i].as_slice(), lit("ServerName").as_slice()) {
                server = Some(v);
            } else if chars_eq(parts[i].as_slice(), lit("InstanceName").as_slice()) {
                instance = Some(v);
            }
            i += 2;
        }
    }
    let ty = match instance {
        Some(v) => v,
        None => lit("Unknown"),
    };
    let sv = match server {
        Some(v) => v,
        None => lit("Unknown"),
    };
    let no_mac: Vec<char> = Vec::new();
    out.push(make_device("MSSQL", 1, from, no_mac.as_slice(), ty.as_slice(), sv.as_slice()));
    assert(views(out@) =~= mssql_devices(from, data@));
    out
}

} // verus!
