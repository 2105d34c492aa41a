//! Handshake constants (RTMP 5.2) and the keys of the digest handshake.
use vstd::prelude::*;

verus! {

pub const RTMP_VERSION: u8 = 3;
pub const RTMP_HANDSHAKE_SIZE: usize = 1536;
pub const RTMP_DIGEST_LENGTH: usize = 32;

/// The version field of the server's S1 in the digest handshake.
pub open spec fn server_version() -> Seq<u8> {
    seq![0x0D, 0x0E, 0x0A, 0x0D]
}

/// The version field of the client's C1 in the digest handshake.
pub open spec fn client_version() -> Seq<u8> {
    seq![0x0C, 0x00, 0x0D, 0x0E]
}

/// The 32 bytes that complete both keys.
pub open spec fn key_second_half() -> Seq<u8> {
    seq![
        0xF0, 0xEE, 0xC2, 0x4A, 0x80, 0x68, 0xBE, 0xE8, 0x2E, 0x00, 0xD0, 0xD1, 0x02, 0x9E, 0x7E,
        0x57, 0x6E, 0xEC, 0x5D, 0x2D, 0x29, 0x80, 0x6F, 0xAB, 0x93, 0xB8, 0xE6, 0x36, 0xCF, 0xEB,
        0x31, 0xAE,
    ]
}

/// "Genuine Adobe Flash Media Server 001".
pub open spec fn server_key_first_half() -> Seq<u8> {
    seq![
        0x47, 0x65, 0x6e, 0x75, 0x69, 0x6e, 0x65, 0x20, 0x41, 0x64, 0x6f, 0x62, 0x65, 0x20, 0x46,
        0x6c, 0x61, 0x73, 0x68, 0x20, 0x4d, 0x65, 0x64, 0x69, 0x61, 0x20, 0x53, 0x65, 0x72, 0x76,
        0x65, 0x72, 0x20, 0x30, 0x30, 0x31,
    ]
}

/// "Genuine Adobe Flash Player 001".
pub open spec fn client_key_first_half() -> Seq<u8> {
    seq![
        0x47, 0x65, 0x6E, 0x75, 0x69, 0x6E, 0x65, 0x20, 0x41, 0x64, 0x6F, 0x62, 0x65, 0x20, 0x46,
        0x6C, 0x61, 0x73, 0x68, 0x20, 0x50, 0x6C, 0x61, 0x79, 0x65, 0x72, 0x20, 0x30, 0x30, 0x31,
    ]
}

/// The 68-byte key the server signs S2 with.
pub open spec fn server_key() -> Seq<u8> {
    server_key_first_half() + key_second_half()
}

/// The 62-byte key the client signs C2 with.
pub open spec fn client_key() -> Seq<u8> {
    client_key_first_half() + key_second_half()
}

pub fn rtmp_server_version() -> (r: Vec<u8>)
    ensures
        r@ == server_version(),
{
    let r = vec![0x0Du8, 0x0E, 0x0A, 0x0D];
    assert(r@ =~= server_version());
    r
}

pub fn rtmp_client_version() -> (r: Vec<u8>)
    ensures
        r@ == client_version(),
{
    let r = vec![0x0Cu8, 0x00, 0x0D, 0x0E];
    assert(r@ =~= client_version());
    r
}

fn push_second_half(v: &mut Vec<u8>)
    ensures
        final(v)@ == old(v)@ + key_second_half(),
{
    let tail = vec![
        0xF0u8, 0xEE, 0xC2, 0x4A, 0x80, 0x68, 0xBE, 0xE8, 0x2E, 0x00, 0xD0, 0xD1, 0x02, 0x9E, 0x7E,
        0x57, 0x6E, 0xEC, 0x5D, 0x2D, 0x29, 0x80, 0x6F, 0xAB, 0x93, 0xB8, 0xE6, 0x36, 0xCF, 0xEB,
        0x31, 0xAE,
    ];
    let mut t = tail;
    assert(t@ =~= key_second_half());
    v.append(&mut t);
}

pub fn rtmp_server_key_first_half() -> (r: Vec<u8>)
    ensures
        r@ == server_key_first_half(),
{
    let r = vec![
        0x47u8, 0x65, 0x6e, 0x75, 0x69, 0x6e, 0x65, 0x20, 0x41, 0x64, 0x6f, 0x62, 0x65, 0x20, 0x46,
        0x6c, 0x61, 0x73, 0x68, 0x20, 0x4d, 0x65, 0x64, 0x69, 0x61, 0x20, 0x53, 0x65, 0x72, 0x76,
        0x65, 0x72, 0x20, 0x30, 0x30, 0x31,
    ];
    assert(r@ =~= server_key_first_half());
    r
}

pub fn rtmp_client_key_first_half() -> (r: Vec<u8>)
    ensures
        r@ == client_key_first_half(),
{
    let r = vec![
        0x47u8, 0x65, 0x6E, 0x75, 0x69, 0x6E, 0x65, 0x20, 0x41, 0x64, 0x6F, 0x62, 0x65, 0x20, 0x46,
        0x6C, 0x61, 0x73, 0x68, 0x20, 0x50, 0x6C, 0x61, 0x79, 0x65, 0x72, 0x20, 0x30, 0x30, 0x31,
    ];
    assert(r@ =~= client_key_first_half());
    r
}

pub fn rtmp_server_key() -> (r: Vec<u8>)
    ensures
        r@ == server_key(),
{
    let mut r = rtmp_server_key_first_half();
    push_second_half(&mut r);
    r
}

pub fn rtmp_client_key() -> (r: Vec<u8>)
    ensures
        r@ == client_key(),
{
    let mut r = rtmp_client_key_first_half();
    push_second_half(&mut r);
    r
}

/// Where the digest sits in C1/S1: after the key block (schema 0) or
/// before it (schema 1).
#[derive(Debug, Clone, Copy, PartialEq, Eq)]
pub enum SchemaVersion {
    Schema0,
    Schema1,
    Unknown,
}

#[derive(Debug, Clone, Copy, PartialEq, Eq)]
pub enum ClientHandshakeState {
    WriteC0C1,
    ReadS0S1S2,
    WriteC2,
    Finish,
}

#[derive(Debug, Clone, Copy, PartialEq, Eq)]
pub enum ServerHandshakeState {
    ReadC0C1,
    WriteS0S1S2,
    ReadC2,
    Finish,
}

} // verus!
