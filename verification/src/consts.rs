//! Pinned protocol constants and the post-handshake packet-type code.
use vstd::prelude::*;

verus! {

/// Client version advertised in the `ClientHello` build info.
pub const SPOTIFY_VERSION: u64 = 124200290;

/// Generator of the Diffie-Hellman group.
pub const DH_GENERATOR: u8 = 2;

/// Prime of the 768-bit MODP Diffie-Hellman group, big-endian.
pub const DH_PRIME: [u8; 96] = [
    0xff, 0xff, 0xff, 0xff, 0xff, 0xff, 0xff, 0xff, 0xc9, 0x0f, 0xda, 0xa2, 0x21, 0x68, 0xc2, 0x34,
    0xc4, 0xc6, 0x62, 0x8b, 0x80, 0xdc, 0x1c, 0xd1, 0x29, 0x02, 0x4e, 0x08, 0x8a, 0x67, 0xcc, 0x74,
    0x02, 0x0b, 0xbe, 0xa6, 0x3b, 0x13, 0x9b, 0x22, 0x51, 0x4a, 0x08, 0x79, 0x8e, 0x34, 0x04, 0xdd,
    0xef, 0x95, 0x19, 0xb3, 0xcd, 0x3a, 0x43, 0x1b, 0x30, 0x2b, 0x0a, 0x6d, 0xf2, 0x5f, 0x14, 0x37,
    0x4f, 0xe1, 0x35, 0x6d, 0x6d, 0x51, 0xc2, 0x45, 0xe4, 0x85, 0xb5, 0x76, 0x62, 0x5e, 0x7e, 0xc6,
    0xf4, 0x4c, 0x42, 0xe9, 0xa6, 0x3a, 0x36, 0x20, 0xff, 0xff, 0xff, 0xff, 0xff, 0xff, 0xff, 0xff,
];

/// Pinned 2048-bit RSA modulus of the access-point server key, big-endian.
/// The public exponent is 65537.
pub const SERVER_KEY: [u8; 256] = [
    0xac, 0xe0, 0x46, 0x0b, 0xff, 0xc2, 0x30, 0xaf, 0xf4, 0x6b, 0xfe, 0xc3, 0xbf, 0xbf, 0x86, 0x3d,
    0xa1, 0x91, 0xc6, 0xcc, 0x33, 0x6c, 0x93, 0xa1, 0x4f, 0xb3, 0xb0, 0x16, 0x12, 0xac, 0xac, 0x6a,
    0xf1, 0x80, 0xe7, 0xf6, 0x14, 0xd9, 0x42, 0x9d, 0xbe, 0x2e, 0x34, 0x66, 0x43, 0xe3, 0x62, 0xd2,
    0x32, 0x7a, 0x1a, 0x0d, 0x92, 0x3b, 0xae, 0xdd, 0x14, 0x02, 0xb1, 0x81, 0x55, 0x05, 0x61, 0x04,
    0xd5, 0x2c, 0x96, 0xa4, 0x4c, 0x1e, 0xcc, 0x02, 0x4a, 0xd4, 0xb2, 0x0c, 0x00, 0x1f, 0x17, 0xed,
    0xc2, 0x2f, 0xc4, 0x35, 0x21, 0xc8, 0xf0, 0xcb, 0xae, 0xd2, 0xad, 0xd7, 0x2b, 0x0f, 0x9d, 0xb3,
    0xc5, 0x32, 0x1a, 0x2a, 0xfe, 0x59, 0xf3, 0x5a, 0x0d, 0xac, 0x68, 0xf1, 0xfa, 0x62, 0x1e, 0xfb,
    0x2c, 0x8d, 0x0c, 0xb7, 0x39, 0x2d, 0x92, 0x47, 0xe3, 0xd7, 0x35, 0x1a, 0x6d, 0xbd, 0x24, 0xc2,
    0xae, 0x25, 0x5b, 0x88, 0xff, 0xab, 0x73, 0x29, 0x8a, 0x0b, 0xcc, 0xcd, 0x0c, 0x58, 0x67, 0x31,
    0x89, 0xe8, 0xbd, 0x34, 0x80, 0x78, 0x4a, 0x5f, 0xc9, 0x6b, 0x89, 0x9d, 0x95, 0x6b, 0xfc, 0x86,
    0xd7, 0x4f, 0x33, 0xa6, 0x78, 0x17, 0x96, 0xc9, 0xc3, 0x2d, 0x0d, 0x32, 0xa5, 0xab, 0xcd, 0x05,
    0x27, 0xe2, 0xf7, 0x10, 0xa3, 0x96, 0x13, 0xc4, 0x2f, 0x99, 0xc0, 0x27, 0xbf, 0xed, 0x04, 0x9c,
    0x3c, 0x27, 0x58, 0x04, 0xb6, 0xb2, 0x19, 0xf9, 0xc1, 0x2f, 0x02, 0xe9, 0x48, 0x63, 0xec, 0xa1,
    0xb6, 0x42, 0xa0, 0x9d, 0x48, 0x25, 0xf8, 0xb3, 0x9d, 0xd0, 0xe8, 0x6a, 0xf9, 0x48, 0x4d, 0xa1,
    0xc2, 0xba, 0x86, 0x30, 0x42, 0xea, 0x9d, 0xb3, 0x08, 0x6c, 0x19, 0x0e, 0x48, 0xb3, 0x9d, 0x66,
    0xeb, 0x00, 0x06, 0xa2, 0x5a, 0xee, 0xa1, 0x1b, 0x13, 0x87, 0x3c, 0xd7, 0x19, 0xe6, 0x55, 0xbd,
];

/// Type code of a packet exchanged over the established encrypted channel.
#[derive(Debug, Copy, Clone, PartialEq, Eq, Structural)]
pub enum PacketType {
    SecretBlock,
    Ping,
    StreamChunk,
    StreamChunkRes,
    ChannelError,
    ChannelAbort,
    RequestKey,
    AesKey,
    AesKeyError,
    Image,
    CountryCode,
    UnknownDataAllZeros,
    Pong,
    PongAck,
    Pause,
    ProductInfo,
    LegacyWelcome,
    PreferredLocale,
    LicenseVersion,
    TrackEndedTime,
    Login,
    APWelcome,
    AuthFailure,
    MercuryReq,
    MercurySub,
    MercuryUnsub,
    MercuryEvent,
    Unknown,
}

/// The packet type that a command byte of the encrypted channel denotes.
pub open spec fn spec_packet_type(v: u8) -> PacketType {
    match v {
        2u8 => PacketType::SecretBlock,
        4u8 => PacketType::Ping,
        8u8 => PacketType::StreamChunk,
        9u8 => PacketType::StreamChunkRes,
        10u8 => PacketType::ChannelError,
        11u8 => PacketType::ChannelAbort,
        12u8 => PacketType::RequestKey,
        13u8 => PacketType::AesKey,
        14u8 => PacketType::AesKeyError,
        25u8 => PacketType::Image,
        27u8 => PacketType::CountryCode,
        31u8 => PacketType::UnknownDataAllZeros,
        73u8 => PacketType::Pong,
        74u8 => PacketType::PongAck,
        75u8 => PacketType::Pause,
        80u8 => PacketType::ProductInfo,
        105u8 => PacketType::LegacyWelcome,
        116u8 => PacketType::PreferredLocale,
        118u8 => PacketType::LicenseVersion,
        130u8 => PacketType::TrackEndedTime,
        171u8 => PacketType::Login,
        172u8 => PacketType::APWelcome,
        173u8 => PacketType::AuthFailure,
        178u8 => PacketType::MercuryReq,
        179u8 => PacketType::MercurySub,
        180u8 => PacketType::MercuryUnsub,
        181u8 => PacketType::MercuryEvent,
        _ => PacketType::Unknown,
    }
}

impl From<u8> for PacketType {
    fn from(v: u8) -> (r: Self) {
        match v {
            2 => Self::SecretBlock,
            4 => Self::Ping,
            8 => Self::StreamChunk,
            9 => Self::StreamChunkRes,
            10 => Self::ChannelError,
            11 => Self::ChannelAbort,
            12 => Self::RequestKey,
            13 => Self::AesKey,
            14 => Self::AesKeyError,
            25 => Self::Image,
            27 => Self::CountryCode,
            31 => Self::UnknownDataAllZeros,
            73 => Self::Pong,
            74 => Self::PongAck,
            75 => Self::Pause,
            80 => Self::ProductInfo,
            105 => Self::LegacyWelcome,
            116 => Self::PreferredLocale,
            118 => Self::LicenseVersion,
            130 => Self::TrackEndedTime,
            171 => Self::Login,
            172 => Self::APWelcome,
            173 => Self::AuthFailure,
            178 => Self::MercuryReq,
            179 => Self::MercurySub,
            180 => Self::MercuryUnsub,
            181 => Self::MercuryEvent,
            _ => Self::Unknown,
        }
    }
}

impl vstd::std_specs::convert::FromSpecImpl<u8> for PacketType {
    open spec fn obeys_from_spec() -> bool {
        true
    }

    open spec fn from_spec(v: u8) -> Self {
        spec_packet_type(v)
    }
}

} // verus!
