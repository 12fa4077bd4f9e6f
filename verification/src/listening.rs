//! What is printed once the server listens.
use crate::text;
use crate::text::decimal_text;
use vstd::prelude::*;
use vstd::string::*;

verus! {

/// An address that is listened on, in its own notation.
pub enum ListenAddress {
    V4(String),
    V6(String),
}

/// The address of the server at one of its addresses.
pub open spec fn url_at(address: ListenAddress, port: u16) -> Seq<char> {
    match address {
        ListenAddress::V4(address) => "http://"@ + address@ + ":"@ + text::decimal(port as nat)
            + "/"@,
        ListenAddress::V6(address) => "http://["@ + address@ + "]:"@ + text::decimal(port as nat)
            + "/"@,
    }
}

fn url_text(address: &ListenAddress, port: u16) -> (url: String)
    ensures
        url@ == url_at(*address, port),
{
    let (open, host, close) = match address {
        ListenAddress::V4(address) => ("http://", address, ":"),
        ListenAddress::V6(address) => ("http://[", address, "]:"),
    };
    let mut url = String::from_str(open);
    url.append(host.as_str());
    url.append(close);
    url.append(decimal_text(port as u64).as_str());
    url.append("/");
    url
}

/// One line for each address.
pub open spec fn url_lines(addresses: Seq<ListenAddress>, port: u16) -> Seq<char>
    decreases addresses.len(),
{
    if addresses.len() == 0 {
        Seq::empty()
    } else if addresses.len() == 1 {
        "  "@ + url_at(addresses[0], port)
    } else {
        url_lines(addresses.drop_last(), port) + "\n"@ + "  "@ + url_at(addresses.last(), port)
    }
}

/// Tells where the server listens.
pub fn print_listening(addresses: &Vec<ListenAddress>, port: u16) -> (output: String)
    ensures
        output@ == (if addresses@.len() == 1 {
            "Listening on "@ + url_at(addresses@[0], port)
        } else {
            "Listening on:\n"@ + url_lines(addresses@, port) + "\n"@
        }),
{
    if addresses.len() == 1 {
        let mut output = String::from_str("Listening on ");
        output.append(url_text(&addresses[0], port).as_str());
        return output;
    }
    let mut lines = String::new();
    let mut index: usize = 0;
    while index < addresses.len()
        invariant
            index <= addresses@.len(),
            lines@ == url_lines(addresses@.subrange(0, index as int), port),
        decreases addresses@.len() - index,
    {
        let ghost longer = addresses@.subrange(0, index + 1);
        assert(longer.drop_last() =~= addresses@.subrange(0, index as int));
        let ghost before = lines@;
        if index > 0 {
            lines.append("\n");
        }
        lines.append("  ");
        lines.append(url_text(&addresses[index], port).as_str());
        assert(lines@ =~= url_lines(longer, port));
        index += 1;
    }
    assert(addresses@.subrange(0, index as int) =~= addresses@);
    let mut output = String::from_str("Listening on:\n");
    output.append(lines.as_str());
    output.append("\n");
    output
}

/// The server is reached at the address in its own notation, in brackets where it is a
/// long one, and at its port. There is one line for each address, in their order.
pub proof fn law_urls_name_address_and_port(
    host: String,
    port: u16,
    addresses: Seq<ListenAddress>,
    last: ListenAddress,
)
    ensures
        url_at(ListenAddress::V4(host), port) == "http://"@ + host@ + ":"@ + text::decimal(
            port as nat,
        ) + "/"@,
        url_at(ListenAddress::V6(host), port) == "http://["@ + host@ + "]:"@ + text::decimal(
            port as nat,
        ) + "/"@,
        url_lines(seq![last], port) == "  "@ + url_at(last, port),
        addresses.len() > 0 ==> url_lines(addresses.push(last), port) == url_lines(addresses, port)
            + "\n"@ + "  "@ + url_at(last, port),
{
    assert(addresses.push(last).drop_last() =~= addresses);
}

} // verus!
