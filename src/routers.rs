use vstd::prelude::*;
use crate::address::Address;

verus! {

/// Whether `a` is one of the curated DEX routers and aggregators.
pub open spec fn is_router_address(a: Address) -> bool {
    a == (Address { hi: 0x7a250d56, lo: 0x30b4cf539739df2c5dacb4c659f2488d })
        || a == (Address { hi: 0xe592427a, lo: 0x0aece92de3edee1f18e0157c05861564 })
        || a == (Address { hi: 0xd9e1ce17, lo: 0xf2641f24ae83637ab66a2cca9c378b9f })
        || a == (Address { hi: 0x68b34658, lo: 0x33fb72a70ecdf485e0e4c7bd8665fc45 })
        || a == (Address { hi: 0x11111112, lo: 0x54fb6c44bac0bed2854e76f90643097d })
        || a == (Address { hi: 0xdef1c0de, lo: 0xd9bec7f1a1670819833240f027b25eff })
        || a == (Address { hi: 0x11111112, lo: 0x542d85b3ef69ae05771c2dccff4faa26 })
        || a == (Address { hi: 0x11111112, lo: 0x54eeb25477b68fb85ed929f73a960582 })
        || a == (Address { hi: 0xef1c6e67, lo: 0x703c7bd7107eed8303fbe6ec2554bf6b })
        || a == (Address { hi: 0xdef171fe, lo: 0x48cf0115b1d80b88dc8eab59176fee57 })
        || a == (Address { hi: 0x25d887ce, lo: 0x7a35172c62febfd67a1856f20faebb00 })
        || a == (Address { hi: 0xdef1abe3, lo: 0x2c034e558cdd535791643c58a13acc10 })
        || a == (Address { hi: 0x881d4023, lo: 0x7659c251811cec9c364ef91dc08d300c })
        || a == (Address { hi: 0x3e66b66f, lo: 0xd1d4e2f8da5c70762fb54367d115bb62 })
}

/// A 4-byte selector read big-endian.
pub open spec fn selector_value(s: Seq<u8>) -> u32 {
    (s[0] as int * 0x1000000 + s[1] as int * 0x10000 + s[2] as int * 0x100 + s[3] as int) as u32
}

/// Whether `v` selects a swap or router function of a supported protocol.
pub open spec fn is_swap_selector(v: u32) -> bool {
    v == 0x7ff36ab5
        || v == 0x18cbafe5
        || v == 0x38ed1739
        || v == 0x8803dbee
        || v == 0x4a25d94a
        || v == 0xb6f9de95
        || v == 0x791ac947
        || v == 0x5c11d795
        || v == 0x022c0d9f
        || v == 0x04e45aaf
        || v == 0xc04b8d59
        || v == 0x5023b4df
        || v == 0x09b81346
        || v == 0x128acb08
        || v == 0x3593564c
        || v == 0xd9627aa4
        || v == 0x6af479b2
        || v == 0x12aa3caf
        || v == 0x2e95b6c8
        || v == 0x7c025200
        || v == 0xb897daeb
        || v == 0x6774b849
        || v == 0x2eb2c2d6
        || v == 0x3a457b3a
        || v == 0xe8e525a6
}

/// Whether `addr` is a known DEX router.
pub fn is_known_router(addr: &Address) -> (r: bool)
    ensures
        r == is_router_address(*addr),
{
    let a = *addr;
    a == (Address { hi: 0x7a250d56, lo: 0x30b4cf539739df2c5dacb4c659f2488d })
        || a == (Address { hi: 0xe592427a, lo: 0x0aece92de3edee1f18e0157c05861564 })
        || a == (Address { hi: 0xd9e1ce17, lo: 0xf2641f24ae83637ab66a2cca9c378b9f })
        || a == (Address { hi: 0x68b34658, lo: 0x33fb72a70ecdf485e0e4c7bd8665fc45 })
        || a == (Address { hi: 0x11111112, lo: 0x54fb6c44bac0bed2854e76f90643097d })
        || a == (Address { hi: 0xdef1c0de, lo: 0xd9bec7f1a1670819833240f027b25eff })
        || a == (Address { hi: 0x11111112, lo: 0x542d85b3ef69ae05771c2dccff4faa26 })
        || a == (Address { hi: 0x11111112, lo: 0x54eeb25477b68fb85ed929f73a960582 })
        || a == (Address { hi: 0xef1c6e67, lo: 0x703c7bd7107eed8303fbe6ec2554bf6b })
        || a == (Address { hi: 0xdef171fe, lo: 0x48cf0115b1d80b88dc8eab59176fee57 })
        || a == (Address { hi: 0x25d887ce, lo: 0x7a35172c62febfd67a1856f20faebb00 })
        || a == (Address { hi: 0xdef1abe3, lo: 0x2c034e558cdd535791643c58a13acc10 })
        || a == (Address { hi: 0x881d4023, lo: 0x7659c251811cec9c364ef91dc08d300c })
        || a == (Address { hi: 0x3e66b66f, lo: 0xd1d4e2f8da5c70762fb54367d115bb62 })
}

/// The selector value of four bytes.
pub fn selector_to_u32(selector: &[u8; 4]) -> (r: u32)
    ensures
        r == selector_value(selector@),
{
    selector[0] as u32 * 0x1000000 + selector[1] as u32 * 0x10000 + selector[2] as u32 * 0x100 + selector[3] as u32
}

/// Whether the 4-byte selector matches a known swap function.
pub fn is_known_swap_selector(selector: &[u8; 4]) -> (r: bool)
    ensures
        r == is_swap_selector(selector_value(selector@)),
{
    let v = selector_to_u32(selector);
    v == 0x7ff36ab5
        || v == 0x18cbafe5
        || v == 0x38ed1739
        || v == 0x8803dbee
        || v == 0x4a25d94a
        || v == 0xb6f9de95
        || v == 0x791ac947
        || v == 0x5c11d795
        || v == 0x022c0d9f
        || v == 0x04e45aaf
        || v == 0xc04b8d59
        || v == 0x5023b4df
        || v == 0x09b81346
        || v == 0x128acb08
        || v == 0x3593564c
        || v == 0xd9627aa4
        || v == 0x6af479b2
        || v == 0x12aa3caf
        || v == 0x2e95b6c8
        || v == 0x7c025200
        || v == 0xb897daeb
        || v == 0x6774b849
        || v == 0x2eb2c2d6
        || v == 0x3a457b3a
        || v == 0xe8e525a6
}

} // verus!
