//! What the server and the clients are set up with.

use vstd::prelude::*;

verus! {

/// The address of a socket.
pub struct ProxyAddr {
    /// Whether it is an IPv4 address.
    pub ipv4: bool,
    /// The address and the port as a text, such as `127.0.0.1:4433` or `[::1]:4433`.
    pub text: String,
}

/// A private key in DER form.
pub enum PrivateKey {
    /// An RSA key as in PKCS#1.
    Pkcs1(Vec<u8>),
    /// An elliptic curve key as in SEC1.
    Sec1(Vec<u8>),
    /// A key as in PKCS#8.
    Pkcs8(Vec<u8>),
}

/// The contents of a [`PrivateKey`].
pub enum KeyView {
    Pkcs1(Seq<u8>),
    Sec1(Seq<u8>),
    Pkcs8(Seq<u8>),
}

impl View for PrivateKey {
    type V = KeyView;

    open spec fn view(&self) -> KeyView {
        match *self {
            PrivateKey::Pkcs1(der) => KeyView::Pkcs1(der@),
            PrivateKey::Sec1(der) => KeyView::Sec1(der@),
            PrivateKey::Pkcs8(der) => KeyView::Pkcs8(der@),
        }
    }
}

/// The set-up of a server.
pub struct ProxyConfig {
    /// The address to listen on.
    pub listen_addr: ProxyAddr,
    /// The server's certificate and those that vouch for it, in DER form.
    pub cert_chain: Vec<Vec<u8>>,
    /// The key of the server's certificate.
    pub priv_key: PrivateKey,
}

} // verus!
