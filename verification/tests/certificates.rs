use h3proxy::config::PrivateKey;
use h3proxy::error::ProxyError;
use h3proxy::tls::{judge_identity, load_identity, parse_certs, parse_private_key, trust_roots};

/// A self-signed certificate for `localhost`.
const CERT: &str = "\
-----BEGIN CERTIFICATE-----\n\
MIIBmTCCAT6gAwIBAgIUcTKzR2Sz5CINCnJmVrqewpcGVsowCgYIKoZIzj0EAwIw\n\
FDESMBAGA1UEAwwJbG9jYWxob3N0MCAXDTIwMDEwMTAwMDAwMFoYDzIxMjAwMTAx\n\
MDAwMDAwWjAUMRIwEAYDVQQDDAlsb2NhbGhvc3QwWTATBgcqhkjOPQIBBggqhkjO\n\
PQMBBwNCAAQIqd33iQyGMdiR6Hs3NzS/3icidOmVpnDzdJDnu4Absixazklthkvm\n\
BypT2FCjxnm9fSr/NP3nkKgCI/tMwrwKo2wwajAdBgNVHQ4EFgQU6Oft9tanUdkq\n\
adfvkLYLv0MWEp4wHwYDVR0jBBgwFoAU6Oft9tanUdkqadfvkLYLv0MWEp4wDAYD\n\
VR0TAQH/BAIwADAaBgNVHREEEzARgglsb2NhbGhvc3SHBH8AAAEwCgYIKoZIzj0E\n\
AwIDSQAwRgIhAJcsqu1eaojMeBLqmUa321xhWt4RlCAy0XfdE/awGL8eAiEAuVGp\n\
3PrQE2AZQEe+WD8mBzwuaLYsdysVyrCRrbpWZR4=\n\
-----END CERTIFICATE-----\n\
";

/// The key of the certificate, which serves for nothing but tests.
const KEY: [u8; 138] = [
    0x30, 0x81, 0x87, 0x02, 0x01, 0x00, 0x30, 0x13, 0x06, 0x07, 0x2a, 0x86, 0x48, 0xce, 0x3d, 0x02,
    0x01, 0x06, 0x08, 0x2a, 0x86, 0x48, 0xce, 0x3d, 0x03, 0x01, 0x07, 0x04, 0x6d, 0x30, 0x6b, 0x02,
    0x01, 0x01, 0x04, 0x20, 0xf6, 0x14, 0x4b, 0x44, 0xed, 0xd3, 0xb0, 0x01, 0xb6, 0x2c, 0x75, 0x93,
    0x9b, 0xef, 0xf2, 0x15, 0xbe, 0x2d, 0x34, 0xef, 0x08, 0x80, 0xeb, 0xf4, 0x4c, 0x95, 0x63, 0x6c,
    0x4f, 0x02, 0x40, 0x3f, 0xa1, 0x44, 0x03, 0x42, 0x00, 0x04, 0x08, 0xa9, 0xdd, 0xf7, 0x89, 0x0c,
    0x86, 0x31, 0xd8, 0x91, 0xe8, 0x7b, 0x37, 0x37, 0x34, 0xbf, 0xde, 0x27, 0x22, 0x74, 0xe9, 0x95,
    0xa6, 0x70, 0xf3, 0x74, 0x90, 0xe7, 0xbb, 0x80, 0x1b, 0xb2, 0x2c, 0x5a, 0xce, 0x49, 0x6d, 0x86,
    0x4b, 0xe6, 0x07, 0x2a, 0x53, 0xd8, 0x50, 0xa3, 0xc6, 0x79, 0xbd, 0x7d, 0x2a, 0xff, 0x34, 0xfd,
    0xe7, 0x90, 0xa8, 0x02, 0x23, 0xfb, 0x4c, 0xc2, 0xbc, 0x0a,
];

/// A key of the same kind that is not the one of the certificate.
const OTHER_KEY: [u8; 138] = [
    0x30, 0x81, 0x87, 0x02, 0x01, 0x00, 0x30, 0x13, 0x06, 0x07, 0x2a, 0x86, 0x48, 0xce, 0x3d, 0x02,
    0x01, 0x06, 0x08, 0x2a, 0x86, 0x48, 0xce, 0x3d, 0x03, 0x01, 0x07, 0x04, 0x6d, 0x30, 0x6b, 0x02,
    0x01, 0x01, 0x04, 0x20, 0x2e, 0xa6, 0x3e, 0xbc, 0x3e, 0x2c, 0x1d, 0x43, 0x8c, 0x6f, 0x65, 0x91,
    0xfd, 0x0e, 0xb5, 0x3c, 0x82, 0x8d, 0x54, 0xed, 0x9b, 0x03, 0x90, 0xb1, 0xb4, 0x25, 0x01, 0xf6,
    0x41, 0xe1, 0x73, 0xc8, 0xa1, 0x44, 0x03, 0x42, 0x00, 0x04, 0x3a, 0xd6, 0x64, 0x23, 0x7f, 0xbf,
    0x75, 0x44, 0xdb, 0x94, 0x0e, 0xc4, 0xf6, 0x0e, 0x52, 0xdd, 0x7a, 0xe5, 0x85, 0x7b, 0xb1, 0x8f,
    0x86, 0x29, 0x48, 0xa0, 0x58, 0xc8, 0x07, 0x02, 0x6e, 0x28, 0xf1, 0xfc, 0x51, 0x91, 0xd0, 0xb0,
    0xe1, 0xc6, 0xff, 0x8f, 0x6f, 0x78, 0xc3, 0xcd, 0x14, 0x6f, 0x8a, 0x5d, 0x66, 0xa1, 0x63, 0x9c,
    0x5e, 0x82, 0xca, 0x2e, 0x85, 0xb8, 0x0c, 0x4e, 0x81, 0x05,
];

/// Another self-signed certificate for `localhost`, with an RSA key.
const RSA_CERT: [u8; 802] = [
    0x30, 0x82, 0x03, 0x1e, 0x30, 0x82, 0x02, 0x06, 0xa0, 0x03, 0x02, 0x01, 0x02, 0x02, 0x14, 0x76,
    0xc8, 0x56, 0xe9, 0xd6, 0x64, 0x0a, 0x5d, 0x30, 0x79, 0x60, 0xca, 0x7c, 0x90, 0x10, 0x25, 0x78,
    0x99, 0x3f, 0xb2, 0x30, 0x0d, 0x06, 0x09, 0x2a, 0x86, 0x48, 0x86, 0xf7, 0x0d, 0x01, 0x01, 0x0b,
    0x05, 0x00, 0x30, 0x14, 0x31, 0x12, 0x30, 0x10, 0x06, 0x03, 0x55, 0x04, 0x03, 0x0c, 0x09, 0x6c,
    0x6f, 0x63, 0x61, 0x6c, 0x68, 0x6f, 0x73, 0x74, 0x30, 0x20, 0x17, 0x0d, 0x32, 0x30, 0x30, 0x31,
    0x30, 0x31, 0x30, 0x30, 0x30, 0x30, 0x30, 0x30, 0x5a, 0x18, 0x0f, 0x32, 0x31, 0x32, 0x30, 0x30,
    0x31, 0x30, 0x31, 0x30, 0x30, 0x30, 0x30, 0x30, 0x30, 0x5a, 0x30, 0x14, 0x31, 0x12, 0x30, 0x10,
    0x06, 0x03, 0x55, 0x04, 0x03, 0x0c, 0x09, 0x6c, 0x6f, 0x63, 0x61, 0x6c, 0x68, 0x6f, 0x73, 0x74,
    0x30, 0x82, 0x01, 0x22, 0x30, 0x0d, 0x06, 0x09, 0x2a, 0x86, 0x48, 0x86, 0xf7, 0x0d, 0x01, 0x01,
    0x01, 0x05, 0x00, 0x03, 0x82, 0x01, 0x0f, 0x00, 0x30, 0x82, 0x01, 0x0a, 0x02, 0x82, 0x01, 0x01,
    0x00, 0x98, 0x13, 0x1f, 0xf7, 0xce, 0x33, 0x02, 0xf6, 0x05, 0x50, 0x5d, 0x29, 0x22, 0x92, 0xdb,
    0x1d, 0x03, 0x56, 0x7d, 0x8b, 0xd2, 0xac, 0xe6, 0x27, 0x6c, 0x5c, 0xce, 0xac, 0x99, 0x93, 0x95,
    0xf0, 0x7c, 0x75, 0x94, 0xd6, 0x95, 0xb6, 0xcf, 0x55, 0x5d, 0x63, 0xba, 0x48, 0x5f, 0xca, 0x30,
    0x43, 0xf0, 0xaf, 0xe1, 0x2e, 0x59, 0xf0, 0x8d, 0x6b, 0xa4, 0x3a, 0xbb, 0xe2, 0x7e, 0xfc, 0xfa,
    0xb2, 0x28, 0x6e, 0xe4, 0x06, 0xeb, 0x80, 0x92, 0xea, 0xc0, 0x75, 0x02, 0x4b, 0xab, 0x2a, 0x52,
    0x37, 0x5c, 0x67, 0x57, 0xc2, 0xe9, 0x55, 0x54, 0x83, 0xed, 0xc4, 0x17, 0x8a, 0x06, 0xe4, 0x3e,
    0x7c, 0xd6, 0x8c, 0xb3, 0xac, 0x85, 0xe6, 0xe0, 0x6b, 0xc7, 0xe4, 0xf5, 0x5f, 0x3c, 0x56, 0xb1,
    0x8d, 0x07, 0x47, 0x18, 0x7f, 0xd0, 0x22, 0xa0, 0xf7, 0x81, 0x50, 0xd4, 0xa1, 0xb4, 0x73, 0x6a,
    0xd5, 0xbc, 0x47, 0x40, 0x10, 0xbb, 0x56, 0x07, 0x8c, 0x27, 0x7a, 0x05, 0x9e, 0xd5, 0x53, 0x86,
    0x41, 0x7c, 0xf9, 0x5e, 0x0a, 0xd6, 0x76, 0xf3, 0x1f, 0x47, 0x31, 0xd1, 0x3d, 0x76, 0x14, 0xf9,
    0xbf, 0x51, 0x18, 0x0a, 0x89, 0x67, 0x00, 0x68, 0x6d, 0xfb, 0xad, 0x74, 0x20, 0x78, 0x53, 0x9e,
    0xbb, 0x92, 0x48, 0x17, 0xef, 0x35, 0x31, 0x7c, 0xee, 0xdd, 0x49, 0x3f, 0x1f, 0xfa, 0x93, 0xd2,
    0xa4, 0x91, 0x27, 0x01, 0x4e, 0x38, 0x0f, 0x26, 0xf8, 0xcc, 0x51, 0xfe, 0x8a, 0x30, 0x89, 0x48,
    0x44, 0xb3, 0xb3, 0xeb, 0x2f, 0x2c, 0xa9, 0xdb, 0x2c, 0x3f, 0xaf, 0x31, 0x21, 0x64, 0x39, 0x0f,
    0xf7, 0x0c, 0x8c, 0xc1, 0x04, 0x45, 0xf1, 0x72, 0xcc, 0x38, 0x2c, 0x20, 0x38, 0x8e, 0x32, 0x91,
    0xb4, 0xd7, 0xe2, 0x4b, 0x48, 0x3d, 0x7f, 0xf5, 0x02, 0x51, 0xa0, 0x4b, 0x39, 0xde, 0x5f, 0x65,
    0x77, 0x02, 0x03, 0x01, 0x00, 0x01, 0xa3, 0x66, 0x30, 0x64, 0x30, 0x1d, 0x06, 0x03, 0x55, 0x1d,
    0x0e, 0x04, 0x16, 0x04, 0x14, 0x7f, 0x09, 0x9d, 0x53, 0x2d, 0xb9, 0xda, 0x6d, 0x97, 0x30, 0x7c,
    0x8f, 0xd4, 0x30, 0xe0, 0xb0, 0x7a, 0x31, 0x26, 0xd6, 0x30, 0x1f, 0x06, 0x03, 0x55, 0x1d, 0x23,
    0x04, 0x18, 0x30, 0x16, 0x80, 0x14, 0x7f, 0x09, 0x9d, 0x53, 0x2d, 0xb9, 0xda, 0x6d, 0x97, 0x30,
    0x7c, 0x8f, 0xd4, 0x30, 0xe0, 0xb0, 0x7a, 0x31, 0x26, 0xd6, 0x30, 0x0c, 0x06, 0x03, 0x55, 0x1d,
    0x13, 0x01, 0x01, 0xff, 0x04, 0x02, 0x30, 0x00, 0x30, 0x14, 0x06, 0x03, 0x55, 0x1d, 0x11, 0x04,
    0x0d, 0x30, 0x0b, 0x82, 0x09, 0x6c, 0x6f, 0x63, 0x61, 0x6c, 0x68, 0x6f, 0x73, 0x74, 0x30, 0x0d,
    0x06, 0x09, 0x2a, 0x86, 0x48, 0x86, 0xf7, 0x0d, 0x01, 0x01, 0x0b, 0x05, 0x00, 0x03, 0x82, 0x01,
    0x01, 0x00, 0x25, 0x0a, 0x7f, 0x24, 0x7b, 0xbe, 0xfc, 0xbc, 0x0c, 0xd3, 0x95, 0x13, 0x04, 0x62,
    0x1c, 0xdb, 0x84, 0x89, 0x7c, 0x2c, 0x60, 0xed, 0xa2, 0x0a, 0x85, 0x69, 0xf0, 0x48, 0x6b, 0x15,
    0xda, 0x2f, 0x02, 0x7a, 0x3d, 0x03, 0x1c, 0x4f, 0xdb, 0xf6, 0x16, 0x71, 0xbd, 0x7a, 0xee, 0xd0,
    0x5f, 0x03, 0xf5, 0x07, 0x7e, 0x72, 0x87, 0xd4, 0x08, 0x5b, 0x98, 0xf0, 0x65, 0x15, 0x41, 0x1a,
    0x32, 0x16, 0x31, 0x56, 0x78, 0xd0, 0x0e, 0x77, 0x0f, 0xaf, 0xdc, 0x5d, 0x38, 0xbf, 0x77, 0xdb,
    0x4c, 0x46, 0x30, 0xa8, 0x16, 0x7c, 0xd9, 0xeb, 0x8b, 0x96, 0x77, 0x9c, 0x0a, 0x08, 0x04, 0x63,
    0x96, 0x79, 0x42, 0x82, 0x4e, 0x82, 0x0b, 0x0d, 0x4b, 0xec, 0xb7, 0xfc, 0xc6, 0x42, 0xa6, 0x25,
    0x04, 0xca, 0xe2, 0xee, 0xa2, 0xe4, 0x62, 0xd6, 0x89, 0xc5, 0x2f, 0xc9, 0xe3, 0x3a, 0xa0, 0x2f,
    0x49, 0x23, 0xf5, 0x46, 0x23, 0x11, 0x43, 0x89, 0x32, 0x27, 0x7a, 0xe4, 0x57, 0xd2, 0x1a, 0x56,
    0xf9, 0xfc, 0x5e, 0x5a, 0xd4, 0x5b, 0x1f, 0x29, 0xc8, 0x4c, 0xd4, 0x65, 0xdd, 0xe0, 0x45, 0xa2,
    0xc6, 0x81, 0xdb, 0x06, 0x64, 0x2b, 0x89, 0x32, 0xda, 0x5b, 0xf5, 0xa9, 0x37, 0xb2, 0xa1, 0x36,
    0xd3, 0x3f, 0x45, 0x36, 0xc7, 0x4d, 0x36, 0x6c, 0xf5, 0x76, 0x72, 0x98, 0x54, 0x1e, 0x42, 0xf1,
    0x67, 0x7a, 0x35, 0x07, 0x25, 0x80, 0x59, 0x21, 0x03, 0xc1, 0x3d, 0x68, 0x6c, 0xa7, 0xd4, 0xe9,
    0x65, 0xdd, 0x4c, 0x34, 0xaa, 0x51, 0xd6, 0x36, 0x21, 0x96, 0x96, 0xb5, 0xa7, 0x9b, 0x85, 0x48,
    0x18, 0xe2, 0xb9, 0x8c, 0x0c, 0xdc, 0x0e, 0xf3, 0x4d, 0x60, 0x22, 0xcb, 0x13, 0x4a, 0x60, 0x4f,
    0xf1, 0x03, 0xa9, 0x05, 0x05, 0xdb, 0x08, 0xb7, 0x68, 0xe7, 0x53, 0x9c, 0x00, 0x43, 0x2c, 0xb1,
    0x61, 0xad,
];

/// The key of that certificate, as in PKCS#1, which serves for nothing but tests.
const RSA_KEY: [u8; 1190] = [
    0x30, 0x82, 0x04, 0xa2, 0x02, 0x01, 0x00, 0x02, 0x82, 0x01, 0x01, 0x00, 0x98, 0x13, 0x1f, 0xf7,
    0xce, 0x33, 0x02, 0xf6, 0x05, 0x50, 0x5d, 0x29, 0x22, 0x92, 0xdb, 0x1d, 0x03, 0x56, 0x7d, 0x8b,
    0xd2, 0xac, 0xe6, 0x27, 0x6c, 0x5c, 0xce, 0xac, 0x99, 0x93, 0x95, 0xf0, 0x7c, 0x75, 0x94, 0xd6,
    0x95, 0xb6, 0xcf, 0x55, 0x5d, 0x63, 0xba, 0x48, 0x5f, 0xca, 0x30, 0x43, 0xf0, 0xaf, 0xe1, 0x2e,
    0x59, 0xf0, 0x8d, 0x6b, 0xa4, 0x3a, 0xbb, 0xe2, 0x7e, 0xfc, 0xfa, 0xb2, 0x28, 0x6e, 0xe4, 0x06,
    0xeb, 0x80, 0x92, 0xea, 0xc0, 0x75, 0x02, 0x4b, 0xab, 0x2a, 0x52, 0x37, 0x5c, 0x67, 0x57, 0xc2,
    0xe9, 0x55, 0x54, 0x83, 0xed, 0xc4, 0x17, 0x8a, 0x06, 0xe4, 0x3e, 0x7c, 0xd6, 0x8c, 0xb3, 0xac,
    0x85, 0xe6, 0xe0, 0x6b, 0xc7, 0xe4, 0xf5, 0x5f, 0x3c, 0x56, 0xb1, 0x8d, 0x07, 0x47, 0x18, 0x7f,
    0xd0, 0x22, 0xa0, 0xf7, 0x81, 0x50, 0xd4, 0xa1, 0xb4, 0x73, 0x6a, 0xd5, 0xbc, 0x47, 0x40, 0x10,
    0xbb, 0x56, 0x07, 0x8c, 0x27, 0x7a, 0x05, 0x9e, 0xd5, 0x53, 0x86, 0x41, 0x7c, 0xf9, 0x5e, 0x0a,
    0xd6, 0x76, 0xf3, 0x1f, 0x47, 0x31, 0xd1, 0x3d, 0x76, 0x14, 0xf9, 0xbf, 0x51, 0x18, 0x0a, 0x89,
    0x67, 0x00, 0x68, 0x6d, 0xfb, 0xad, 0x74, 0x20, 0x78, 0x53, 0x9e, 0xbb, 0x92, 0x48, 0x17, 0xef,
    0x35, 0x31, 0x7c, 0xee, 0xdd, 0x49, 0x3f, 0x1f, 0xfa, 0x93, 0xd2, 0xa4, 0x91, 0x27, 0x01, 0x4e,
    0x38, 0x0f, 0x26, 0xf8, 0xcc, 0x51, 0xfe, 0x8a, 0x30, 0x89, 0x48, 0x44, 0xb3, 0xb3, 0xeb, 0x2f,
    0x2c, 0xa9, 0xdb, 0x2c, 0x3f, 0xaf, 0x31, 0x21, 0x64, 0x39, 0x0f, 0xf7, 0x0c, 0x8c, 0xc1, 0x04,
    0x45, 0xf1, 0x72, 0xcc, 0x38, 0x2c, 0x20, 0x38, 0x8e, 0x32, 0x91, 0xb4, 0xd7, 0xe2, 0x4b, 0x48,
    0x3d, 0x7f, 0xf5, 0x02, 0x51, 0xa0, 0x4b, 0x39, 0xde, 0x5f, 0x65, 0x77, 0x02, 0x03, 0x01, 0x00,
    0x01, 0x02, 0x82, 0x01, 0x00, 0x0a, 0x6e, 0x5a, 0xff, 0x4b, 0x82, 0x37, 0x3e, 0x14, 0x39, 0x6e,
    0xa5, 0xa5, 0xc6, 0x5b, 0x94, 0x9e, 0xfb, 0x4a, 0x78, 0x45, 0x49, 0xd6, 0xfa, 0x69, 0x15, 0xe8,
    0xfd, 0x3d, 0x9f, 0xed, 0x3e, 0xdf, 0xbc, 0x33, 0xc4, 0x43, 0x17, 0xae, 0xb4, 0xd8, 0x2d, 0xf4,
    0x50, 0xa0, 0x5b, 0xd1, 0xec, 0xb5, 0x7d, 0x32, 0xea, 0x6d, 0x80, 0xb1, 0x0a, 0x9e, 0x6b, 0x1c,
    0x89, 0x19, 0xc8, 0x2e, 0xac, 0xc7, 0x89, 0x6a, 0xe0, 0xe2, 0x3b, 0xe1, 0x64, 0xbf, 0x64, 0x8d,
    0xa8, 0x41, 0xaa, 0x77, 0x62, 0x3b, 0x57, 0x74, 0x88, 0xb6, 0xc3, 0xf6, 0xe9, 0x67, 0xba, 0x02,
    0x80, 0x88, 0x51, 0x7b, 0x64, 0xfc, 0x88, 0x74, 0x5b, 0xc7, 0x01, 0x82, 0x08, 0xac, 0x2c, 0x20,
    0x2f, 0x59, 0x6e, 0x7b, 0xaf, 0xde, 0x70, 0x6d, 0x15, 0xac, 0xe1, 0xd4, 0xca, 0x82, 0x24, 0x25,
    0x53, 0x37, 0x5f, 0xf5, 0x53, 0x6e, 0x7c, 0xac, 0x9b, 0x8c, 0x73, 0x0a, 0x39, 0xea, 0xae, 0x99,
    0x5a, 0x19, 0x8a, 0x86, 0x05, 0xec, 0xc0, 0x2a, 0xb9, 0xaa, 0x3c, 0x2b, 0xb3, 0x51, 0xfa, 0x20,
    0x61, 0xdb, 0x60, 0x39, 0xe9, 0x08, 0x6f, 0xba, 0x13, 0x91, 0xff, 0xea, 0x83, 0xc2, 0x7c, 0x95,
    0x64, 0x29, 0x59, 0xa0, 0x75, 0xf8, 0x66, 0x76, 0x0e, 0x53, 0xc7, 0xfd, 0x70, 0x9d, 0xae, 0xb1,
    0xfc, 0x3d, 0x03, 0x11, 0xcc, 0x16, 0xeb, 0xb0, 0x3e, 0x59, 0x5d, 0x2c, 0xf7, 0xd4, 0x43, 0xb8,
    0xcd, 0x1e, 0x83, 0x7e, 0xa0, 0x39, 0xa3, 0xee, 0x6e, 0xee, 0xf6, 0x67, 0x3b, 0x08, 0xb9, 0x29,
    0x0a, 0x8a, 0x02, 0x0c, 0xa7, 0xe2, 0xbf, 0x39, 0x69, 0x47, 0xfb, 0xa4, 0x3d, 0x81, 0xca, 0x62,
    0xe3, 0x7a, 0x67, 0xc3, 0x54, 0x15, 0xc7, 0x10, 0xbc, 0x8a, 0x27, 0x4c, 0x30, 0x07, 0x8a, 0x41,
    0x5e, 0xce, 0x56, 0x43, 0xd1, 0x02, 0x81, 0x81, 0x00, 0xd3, 0x4f, 0xdb, 0xa3, 0x31, 0xfe, 0xd8,
    0x8e, 0xc7, 0x4d, 0x9b, 0xdf, 0x83, 0x7f, 0xb3, 0x05, 0x88, 0x93, 0xbb, 0x2e, 0xe1, 0xa6, 0xf5,
    0x75, 0x68, 0x86, 0x09, 0x75, 0xce, 0x3d, 0xc5, 0x34, 0x06, 0xcc, 0x74, 0x0f, 0x72, 0x16, 0x93,
    0x6e, 0x0c, 0xbd, 0xe3, 0x98, 0x10, 0xf1, 0x4f, 0xd5, 0xdd, 0xfe, 0x34, 0xb4, 0xdc, 0x17, 0x73,
    0x02, 0xa3, 0x63, 0x88, 0xbf, 0x95, 0xde, 0xd9, 0x67, 0x0b, 0x0b, 0xfc, 0xad, 0x1a, 0xfd, 0x50,
    0xff, 0xe1, 0x6c, 0xa3, 0xa5, 0xe0, 0xbb, 0x9a, 0x76, 0x76, 0xba, 0x19, 0x0d, 0x35, 0xb2, 0xee,
    0xbe, 0x3d, 0xfd, 0x17, 0x78, 0x06, 0x19, 0x72, 0xc7, 0x52, 0x70, 0xe1, 0x73, 0xc0, 0x35, 0x9b,
    0x61, 0x44, 0xfb, 0xbd, 0xab, 0xd4, 0x4f, 0xde, 0x0a, 0x1d, 0x85, 0x75, 0x5c, 0x18, 0x55, 0x5a,
    0x94, 0xca, 0x7a, 0xf4, 0x6e, 0x9b, 0x04, 0xf4, 0x27, 0x02, 0x81, 0x81, 0x00, 0xb8, 0x3c, 0x3e,
    0x41, 0x0b, 0x90, 0xa6, 0xcb, 0x64, 0x41, 0x7b, 0x66, 0xc2, 0x76, 0xdb, 0xe4, 0xae, 0xcb, 0x91,
    0xc5, 0xdb, 0x5d, 0xab, 0xb2, 0xc2, 0xbf, 0x1f, 0x53, 0xdb, 0xf4, 0x7e, 0x9d, 0x0c, 0xbc, 0x82,
    0x8e, 0x57, 0x01, 0xfb, 0xa6, 0xe7, 0xe7, 0xe9, 0x77, 0x6e, 0x4d, 0xcc, 0xeb, 0x22, 0x36, 0xda,
    0x2d, 0xf2, 0xc2, 0x41, 0xe1, 0x40, 0x3d, 0xa0, 0x1d, 0x0e, 0xcb, 0x4e, 0xe7, 0x86, 0x6c, 0xfa,
    0xef, 0x41, 0xf7, 0x11, 0x7a, 0x37, 0x8b, 0xa6, 0xe4, 0x8e, 0x46, 0x66, 0xca, 0x35, 0x4a, 0x51,
    0x9f, 0xff, 0x54, 0x03, 0x01, 0xf3, 0x20, 0xed, 0xf2, 0xb3, 0xf6, 0x61, 0x37, 0xc1, 0xad, 0x3f,
    0x6e, 0x5d, 0x76, 0xda, 0x57, 0x97, 0x69, 0x51, 0x43, 0x20, 0x5b, 0x29, 0xac, 0x2e, 0x08, 0x85,
    0xd4, 0x78, 0xe9, 0x9d, 0xfa, 0xd9, 0x72, 0xd1, 0x13, 0x63, 0x46, 0x46, 0x31, 0x02, 0x81, 0x80,
    0x15, 0xf0, 0x30, 0x89, 0x5c, 0xe3, 0x6c, 0x70, 0x46, 0x58, 0xd4, 0x59, 0xfc, 0x39, 0x01, 0xc9,
    0x0d, 0x48, 0xe9, 0x22, 0x10, 0xe3, 0x58, 0x90, 0x7b, 0xed, 0x8e, 0x85, 0xe0, 0x87, 0xa1, 0x35,
    0xa9, 0x8f, 0x08, 0x6d, 0xa2, 0x16, 0x9d, 0xef, 0xca, 0xfa, 0xdb, 0xea, 0x29, 0xb8, 0x23, 0xe5,
    0xbc, 0x4a, 0x6c, 0x06, 0x6a, 0xe3, 0x34, 0x59, 0x8d, 0xc5, 0x03, 0xa9, 0x80, 0x51, 0xc6, 0x98,
    0x60, 0x19, 0x3a, 0x7e, 0x6e, 0x52, 0xe6, 0x59, 0xea, 0x79, 0x70, 0xf4, 0x03, 0xc4, 0xf6, 0x60,
    0x5e, 0x2b, 0x2b, 0xf6, 0xa7, 0x20, 0x90, 0x90, 0xc7, 0xb6, 0xc2, 0xfc, 0xff, 0x05, 0x1d, 0x59,
    0x7c, 0x41, 0xa3, 0xe6, 0x74, 0x8a, 0x1c, 0x3b, 0x99, 0x01, 0xd9, 0xcb, 0x41, 0x1b, 0x99, 0x9d,
    0xcb, 0x3a, 0xd3, 0xd8, 0x5f, 0xde, 0x5c, 0xad, 0x1d, 0xe8, 0x6e, 0x00, 0x1d, 0xb0, 0x01, 0xf9,
    0x02, 0x81, 0x80, 0x0f, 0x2f, 0x98, 0x0a, 0x10, 0x83, 0xf9, 0xdb, 0xa6, 0x05, 0xe7, 0xc0, 0x0e,
    0xa3, 0x71, 0x78, 0xa6, 0x17, 0xcd, 0x8a, 0x3b, 0x8c, 0xbb, 0x0c, 0x5f, 0x15, 0x15, 0xe5, 0xf9,
    0xa9, 0x6b, 0x8e, 0x52, 0x70, 0x6f, 0x6a, 0x80, 0x2d, 0x7f, 0xaa, 0xc0, 0x4e, 0xd3, 0x65, 0xae,
    0xc7, 0xe6, 0xee, 0x32, 0xc1, 0xc6, 0xb6, 0x26, 0xde, 0x70, 0x43, 0xba, 0xe1, 0xd9, 0x82, 0xcb,
    0xa7, 0x62, 0x77, 0x9f, 0x12, 0xf8, 0x94, 0x24, 0x21, 0xd3, 0x64, 0xf9, 0x93, 0x1f, 0x4c, 0x93,
    0x95, 0xa5, 0xff, 0x60, 0xe9, 0x21, 0x55, 0x48, 0xdc, 0x89, 0xea, 0xed, 0x39, 0x77, 0xa3, 0x9b,
    0xc5, 0xe1, 0x39, 0x91, 0x53, 0x50, 0x79, 0x2e, 0x67, 0x0f, 0x94, 0x4c, 0xbc, 0xb7, 0xa0, 0x0a,
    0xd8, 0xb8, 0xd4, 0xa2, 0x6e, 0xbd, 0x69, 0x48, 0x16, 0x29, 0x99, 0x75, 0xb7, 0x0b, 0x18, 0xc8,
    0x04, 0x10, 0xe1, 0x02, 0x81, 0x80, 0x00, 0xad, 0xbd, 0x89, 0xed, 0x66, 0x25, 0x48, 0xc1, 0x13,
    0x5e, 0x4f, 0x36, 0x38, 0x55, 0x97, 0x0e, 0xfa, 0x53, 0x0c, 0x97, 0x66, 0xa8, 0xc5, 0x0b, 0x03,
    0xb5, 0x13, 0x8e, 0xe8, 0x91, 0xc4, 0x6b, 0x03, 0xe9, 0xe7, 0x37, 0x69, 0x15, 0xad, 0xb0, 0xe7,
    0x8b, 0x53, 0xd9, 0x7f, 0xda, 0xf2, 0xef, 0x71, 0x6d, 0x77, 0x31, 0x32, 0xe4, 0x76, 0xb8, 0xc4,
    0x27, 0x06, 0xfe, 0x63, 0x55, 0x9e, 0xe2, 0xe1, 0x6a, 0x64, 0x72, 0x4e, 0xd8, 0xfb, 0xe0, 0x49,
    0x39, 0xb2, 0x8b, 0x04, 0x11, 0x1c, 0xd5, 0xee, 0xc5, 0x7a, 0x71, 0x8a, 0x71, 0xfa, 0x87, 0x9f,
    0x69, 0x30, 0x6c, 0x41, 0x82, 0x53, 0x91, 0x29, 0x9d, 0x67, 0x6d, 0xa7, 0x19, 0x55, 0x9b, 0x4c,
    0x2b, 0xd7, 0x8f, 0xf5, 0xd9, 0x7f, 0x0e, 0x5e, 0x75, 0xf8, 0xfd, 0xd9, 0x3d, 0x03, 0x18, 0xbe,
    0x26, 0xfb, 0xc0, 0x4b, 0x83, 0xed,
];

#[test]
fn certificates_of_a_file() {
    let one = parse_certs(CERT.as_bytes()).unwrap();
    assert_eq!(one.len(), 1);
    assert_eq!(one[0].len(), 413);
    assert_eq!(one[0][..4], [0x30, 0x82, 0x01, 0x99]);
    let two = parse_certs(format!("{}text between\n{}", CERT, CERT).as_bytes()).unwrap();
    assert_eq!(two.len(), 2);
    assert_eq!(two[0], one[0]);
    assert_eq!(two[1], one[0]);
    assert!(parse_certs(b"").unwrap().is_empty());
}

#[test]
fn a_file_that_is_not_well_formed() {
    let broken = b"-----BEGIN CERTIFICATE-----\nAQID\n";
    let words = "section end \"CERTIFICATE\" missing";
    assert!(matches!(parse_certs(broken), Err(ProxyError::Pem(w)) if w == words));
    assert!(matches!(parse_private_key(broken), Err(ProxyError::Pem(w)) if w == words));
}

fn pem(label: &str, body: &str) -> String {
    let mark = "-----";
    format!("{}BEGIN {}{}\n{}\n{}END {}{}\n", mark, label, mark, body, mark, label, mark)
}

#[test]
fn keys_of_three_forms() {
    let key = |label: &str| parse_private_key(pem(label, "AQID").as_bytes()).unwrap();
    assert!(matches!(key("PRIVATE KEY"), Some(PrivateKey::Pkcs8(der)) if der == [1, 2, 3]));
    assert!(matches!(key("RSA PRIVATE KEY"), Some(PrivateKey::Pkcs1(der)) if der == [1, 2, 3]));
    assert!(matches!(key("EC PRIVATE KEY"), Some(PrivateKey::Sec1(der)) if der == [1, 2, 3]));
}

#[test]
fn the_first_key_counts() {
    let file = format!("{}{}{}", CERT, pem("PRIVATE KEY", "AQID"), pem("EC PRIVATE KEY", "BAUG"));
    let key = parse_private_key(file.as_bytes()).unwrap();
    assert!(matches!(key, Some(PrivateKey::Pkcs8(der)) if der == [1, 2, 3]));
    assert!(parse_private_key(CERT.as_bytes()).unwrap().is_none());
}

#[test]
fn roots_that_are_trusted() {
    let cert = parse_certs(CERT.as_bytes()).unwrap().remove(0);
    let store = trust_roots(&vec![cert.clone()]).unwrap();
    assert_eq!(store.len(), 1);
    let subject: &[u8] = store.roots[0].subject.as_ref();
    assert!(subject.ends_with(b"localhost"));
    assert_eq!(trust_roots(&vec![cert.clone(), cert.clone()]).unwrap().len(), 2);
    assert!(trust_roots(&Vec::new()).unwrap().is_empty());
}

#[test]
fn the_first_root_that_is_refused() {
    let cert = parse_certs(CERT.as_bytes()).unwrap().remove(0);
    let list = vec![cert, vec![1, 2, 3], vec![4]];
    match trust_roots(&list) {
        Err(ProxyError::Root(1, words)) => {
            assert_eq!(words, "invalid peer certificate: BadEncoding")
        }
        _ => panic!("it is trusted"),
    }
}

#[test]
fn an_identity_presents_its_chain() {
    let cert = parse_certs(CERT.as_bytes()).unwrap().remove(0);
    let identity = load_identity(&vec![cert.clone()], &PrivateKey::Pkcs8(KEY.to_vec())).unwrap();
    assert_eq!(identity.cert.len(), 1);
    assert_eq!(identity.cert[0].as_ref(), cert.as_slice());
}

#[test]
fn what_makes_no_identity() {
    let cert = parse_certs(CERT.as_bytes()).unwrap().remove(0);
    let key = PrivateKey::Pkcs8(KEY.to_vec());
    let words = |outcome: Result<_, ProxyError>| match outcome {
        Ok(_) => panic!("an identity was made"),
        Err(e) => {
            assert!(matches!(e, ProxyError::Identity(_)));
            e.message()
        }
    };
    let none = "peer sent no certificates";
    assert_eq!(words(load_identity(&Vec::new(), &key)), none);
    let broken = PrivateKey::Pkcs8(vec![1, 2, 3]);
    assert_eq!(
        words(load_identity(&vec![cert], &broken)),
        "unexpected error: failed to parse private key as RSA, ECDSA, or EdDSA"
    );
    assert_eq!(words(load_identity(&Vec::new(), &PrivateKey::Pkcs1(RSA_KEY.to_vec()))), none);
    assert_eq!(words(judge_identity(Err("why".to_string()))), "why");
}

#[test]
fn an_identity_with_a_key_as_in_pkcs_1() {
    let chain = vec![RSA_CERT.to_vec()];
    let identity = load_identity(&chain, &PrivateKey::Pkcs1(RSA_KEY.to_vec())).unwrap();
    assert_eq!(identity.cert[0].as_ref(), RSA_CERT.as_slice());
    assert!(identity.keys_match().is_ok());
}

#[test]
fn an_identity_signs_with_its_key() {
    let cert = parse_certs(CERT.as_bytes()).unwrap().remove(0);
    let identity = load_identity(&vec![cert], &PrivateKey::Pkcs8(KEY.to_vec())).unwrap();
    let spki = identity.key.public_key().unwrap();
    assert!(spki.as_ref().ends_with(&KEY[KEY.len() - 64..]));
}

#[test]
fn a_key_of_another_certificate() {
    let words = "keys may not be consistent: KeyMismatch";
    let cert = parse_certs(CERT.as_bytes()).unwrap().remove(0);
    for (chain, key) in [
        (vec![cert.clone()], PrivateKey::Pkcs8(OTHER_KEY.to_vec())),
        (vec![cert.clone()], PrivateKey::Pkcs1(RSA_KEY.to_vec())),
        (vec![RSA_CERT.to_vec(), cert], PrivateKey::Pkcs8(KEY.to_vec())),
    ] {
        match load_identity(&chain, &key) {
            Err(ProxyError::Identity(w)) => assert_eq!(w, words),
            _ => panic!("an identity was made"),
        }
    }
}

/// An RSA key as in PKCS#1, put into the form of PKCS#8.
fn as_pkcs8(key: &[u8]) -> Vec<u8> {
    let sized = |tag: u8, len: usize| vec![tag, 0x82, (len >> 8) as u8, len as u8];
    let algorithm = [
        0x30, 0x0d, 0x06, 0x09, 0x2a, 0x86, 0x48, 0x86, 0xf7, 0x0d, 0x01, 0x01, 0x01, 0x05, 0x00,
    ];
    let mut inner = vec![0x02, 0x01, 0x00];
    inner.extend_from_slice(&algorithm);
    inner.extend_from_slice(&sized(0x04, key.len()));
    inner.extend_from_slice(key);
    let mut outer = sized(0x30, inner.len());
    outer.extend_from_slice(&inner);
    outer
}

#[test]
fn an_identity_with_an_rsa_key_as_in_pkcs_8() {
    let key = PrivateKey::Pkcs8(as_pkcs8(&RSA_KEY));
    let identity = load_identity(&vec![RSA_CERT.to_vec()], &key).unwrap();
    assert_eq!(identity.cert[0].as_ref(), RSA_CERT.as_slice());
    assert!(identity.keys_match().is_ok());

    let cert = parse_certs(CERT.as_bytes()).unwrap().remove(0);
    match load_identity(&vec![cert], &key) {
        Err(ProxyError::Identity(w)) => {
            assert_eq!(w, "keys may not be consistent: KeyMismatch")
        }
        _ => panic!("an identity was made"),
    }
}
