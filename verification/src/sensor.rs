//! Integer logic around the VL53L3CX time-of-flight sensor driver: status
//! codes, the I2C transfers its platform layer performs, and the values it
//! receives from the platform.
use vstd::prelude::*;

verus! {

/// Converts a driver status code into a `Result`: zero is success, any
/// other code is handed back as the error.
pub fn vl53lx_error_to_result(error: i8) -> (r: Result<(), i8>)
    ensures
        r is Ok <==> error == 0,
        r is Err ==> r == Err::<(), i8>(error),
{
    if error == 0 {
        Ok(())
    } else {
        Err(error)
    }
}

/// The status the platform layer reports for a failed transfer.
pub const PLATFORM_FAILURE: i8 = -1;

/// The largest I2C write the platform layer performs, register index included.
pub const MAX_WRITE_LEN: usize = 256;

/// The big-endian bytes of a 16-bit register index.
pub open spec fn index_bytes_spec(index: u16) -> Seq<u8> {
    seq![(index / 256) as u8, (index % 256) as u8]
}

/// The index bytes, read back most significant first, give the register
/// index, for every register.
pub proof fn lemma_index_bytes_big_endian(index: u16)
    ensures
        index_bytes_spec(index).len() == 2,
        index_bytes_spec(index)[0] as int * 256 + index_bytes_spec(index)[1] as int == index,
        index_bytes_spec(index)[0] == index / 256,
{
}

/// The two bytes that select register `index`, most significant first.
pub fn register_index_bytes(index: u16) -> (b: [u8; 2])
    ensures
        b@ == index_bytes_spec(index),
        b[0] as int * 256 + b[1] as int == index,
{
    let hi: u8 = (index / 256) as u8;
    let lo: u8 = (index % 256) as u8;
    let b = [hi, lo];
    assert(b@ =~= index_bytes_spec(index));
    b
}

/// The bytes of a write of `data` to the registers starting at `index`: the
/// register index, then the data. Writes longer than the platform's buffer
/// are refused with the platform failure status.
pub fn i2c_write_frame(index: u16, data: &[u8]) -> (r: Result<Vec<u8>, i8>)
    ensures
        r is Err <==> data@.len() + 2 > MAX_WRITE_LEN,
        r is Err ==> r == Err::<Vec<u8>, i8>(PLATFORM_FAILURE),
        r matches Ok(f) ==> f@ == index_bytes_spec(index) + data@,
        r matches Ok(f) ==> f@.len() == data@.len() + 2 && f@[0] as int * 256 + f@[1] as int
            == index && f@.skip(2) == data@,
{
    if data.len() > MAX_WRITE_LEN - 2 {
        return Err(PLATFORM_FAILURE);
    }
    let prefix = register_index_bytes(index);
    let mut frame: Vec<u8> = Vec::new();
    frame.push(prefix[0]);
    frame.push(prefix[1]);
    let mut i: usize = 0;
    while i < data.len()
        invariant
            i <= data@.len(),
            frame@ == index_bytes_spec(index) + data@.take(i as int),
        decreases data@.len() - i,
    {
        frame.push(data[i]);
        proof {
            assert(data@.take(i + 1) =~= data@.take(i as int).push(data@[i as int]));
        }
        i = i + 1;
    }
    assert(data@.take(data@.len() as int) =~= data@);
    Ok(frame)
}

/// The status of a transfer as the driver sees it: zero on success, the
/// platform failure status otherwise.
pub fn transfer_status(succeeded: bool) -> (s: i8)
    ensures
        s == if succeeded {
            0i8
        } else {
            PLATFORM_FAILURE
        },
{
    if succeeded {
        0
    } else {
        PLATFORM_FAILURE
    }
}

/// The delay to wait for a delay the driver asks for: negative requests wait
/// for nothing.
pub fn delay_amount(requested: i32) -> (d: u32)
    ensures
        d == if requested < 0 {
            0
        } else {
            requested as u32
        },
{
    if requested < 0 {
        0
    } else {
        requested as u32
    }
}

/// The driver's tick count: milliseconds since boot, wrapped to 32 bits.
pub fn tick_count(millis_since_boot: u64) -> (t: u32)
    ensures
        t == millis_since_boot % 0x1_0000_0000,
{
    (millis_since_boot % 0x1_0000_0000) as u32
}

/// A poll of the sensor has a measurement to read: the poll succeeded and the
/// sensor flagged new data.
pub fn measurement_ready(status: i8, new_data_ready: u8) -> (b: bool)
    ensures
        b == (status == 0 && new_data_ready != 0),
{
    status == 0 && new_data_ready != 0
}

} // verus!
