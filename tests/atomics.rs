use linmem::memory::LinearMemory;

#[test]
fn test_atomic_read_i32() {
    let mut memory = LinearMemory::new(1);

    let address: i32 = 4;
    let value: i32 = 117;

    memory.write_i32(address, value);

    let read_value = memory.atomic_read_i32(address);
    assert_eq!(value, read_value);
}

#[test]
fn test_atomic_read_i32_from_i8() {
    let mut memory = LinearMemory::new(1);

    let address: i32 = 0;
    let value: i8 = -128;

    memory.write_i32_to_i8(address, value as i32);

    let read_value = memory.atomic_read_i32_from_i8(address);
    assert_eq!(value as i32, read_value);
}

#[test]
fn test_atomic_read_i32_from_i16() {
    let mut memory = LinearMemory::new(1);

    let address: i32 = 2;
    let value: i16 = -32768;

    memory.write_i32_to_i16(address, value as i32);

    let read_value = memory.atomic_read_i32_from_i16(address);
    assert_eq!(value as i32, read_value);
}

#[test]
fn test_atomic_read_i32_from_u8() {
    let mut memory = LinearMemory::new(1);

    let address: i32 = 1;
    let value: u8 = 255;

    memory.write_i32_to_i8(address, value as i32);

    let read_value = memory.atomic_read_i32_from_u8(address);
    assert_eq!(value as i32, read_value);
}

#[test]
fn test_atomic_read_i32_from_u16() {
    let mut memory = LinearMemory::new(1);

    let address: i32 = 4;
    let value: u16 = 65535;

    memory.write_i32_to_i16(address, value as i32);

    let read_value = memory.atomic_read_i32_from_u16(address);
    assert_eq!(value as i32, read_value);
}

#[test]
fn test_atomic_write_i32() {
    let mut memory = LinearMemory::new(1);

    let address: i32 = 4;
    let value: i32 = 117;

    memory.atomic_write_i32(address, value);

    let read_value = memory.read_i32(address);
    assert_eq!(value, read_value);
}

#[test]
fn test_atomic_write_i32_to_i8() {
    let mut memory = LinearMemory::new(1);

    let address: i32 = 0;
    let value: i32 = -128;

    memory.atomic_write_i32_to_i8(address, value);

    let read_value = memory.read_i32_from_i8(address);
    assert_eq!(value as i8 as i32, read_value);
}

#[test]
fn test_atomic_write_i32_to_i16() {
    let mut memory = LinearMemory::new(1);

    let address: i32 = 2;
    let value: i32 = -32768;

    memory.atomic_write_i32_to_i16(address, value);

    let read_value = memory.read_i32_from_i16(address);
    assert_eq!(value as i16 as i32, read_value);
}

#[test]
fn test_atomic_read_i64() {
    let mut memory = LinearMemory::new(1);

    let address: i32 = 8;
    let value: i64 = 123456789101112;

    memory.write_i64(address, value);

    let read_value = memory.atomic_read_i64(address);
    assert_eq!(value, read_value);
}

#[test]
fn test_atomic_read_i64_from_i8() {
    let mut memory = LinearMemory::new(1);

    let address: i32 = 0;
    let value: i8 = -128;

    memory.write_i32_to_i8(address, value as i32);

    let read_value = memory.atomic_read_i64_from_i8(address);
    assert_eq!(value as i64, read_value);
}

#[test]
fn test_atomic_read_i64_from_i16() {
    let mut memory = LinearMemory::new(1);

    let address: i32 = 2;
    let value: i16 = -32768;

    memory.write_i32_to_i16(address, value as i32);

    let read_value = memory.atomic_read_i64_from_i16(address);
    assert_eq!(value as i64, read_value);
}

#[test]
fn test_atomic_read_i64_from_i32() {
    let mut memory = LinearMemory::new(1);

    let address: i32 = 4;
    let value: i32 = -2147483648;

    memory.write_i32(address, value);

    let read_value = memory.atomic_read_i64_from_i32(address);
    assert_eq!(value as i64, read_value);
}

#[test]
fn test_atomic_read_i64_from_u8() {
    let mut memory = LinearMemory::new(1);

    let address: i32 = 1;
    let value: u8 = 255;

    memory.write_i32_to_i8(address, value as i32);

    let read_value = memory.atomic_read_i64_from_u8(address);
    assert_eq!(value as i64, read_value);
}

#[test]
fn test_atomic_read_i64_from_u16() {
    let mut memory = LinearMemory::new(1);

    let address: i32 = 6;
    let value: u16 = 65535;

    memory.write_i32_to_i16(address, value as i32);

    let read_value = memory.atomic_read_i64_from_u16(address);
    assert_eq!(value as i64, read_value);
}

#[test]
fn test_atomic_read_i64_from_u32() {
    let mut memory = LinearMemory::new(1);

    let address: i32 = 8;
    let value: u32 = 4294967295;

    memory.write_i32(address, value as i32);

    let read_value = memory.atomic_read_i64_from_u32(address);
    assert_eq!(value as i64, read_value);
}

#[test]
fn test_atomic_write_i64() {
    let mut memory = LinearMemory::new(1);

    let address: i32 = 8;
    let value: i64 = 123456789101112;

    memory.atomic_write_i64(address, value);

    let read_value = memory.read_i64(address);
    assert_eq!(value, read_value);
}

#[test]
fn test_atomic_write_i64_to_i8() {
    let mut memory = LinearMemory::new(1);

    let address: i32 = 0;
    let value: i64 = -128;

    memory.atomic_write_i64_to_i8(address, value);

    let read_value = memory.read_i64_from_i8(address);
    assert_eq!(value as i8 as i64, read_value);
}

#[test]
fn test_atomic_write_i64_to_i16() {
    let mut memory = LinearMemory::new(1);

    let address: i32 = 2;
    let value: i64 = -32768;

    memory.atomic_write_i64_to_i16(address, value);

    let read_value = memory.read_i64_from_i16(address);
    assert_eq!(value as i16 as i64, read_value);
}

#[test]
fn test_atomic_write_i64_to_i32() {
    let mut memory = LinearMemory::new(1);

    let address: i32 = 4;
    let value: i64 = -2147483648;

    memory.atomic_write_i64_to_i32(address, value);

    let read_value = memory.read_i64_from_i32(address);
    assert_eq!(value as i32 as i64, read_value);
}

#[test]
fn test_atomic_rmw_add_i32() {
    let mut memory = LinearMemory::new(1);

    let address: i32 = 0;
    let initial_value: i32 = 42;
    let add_value: i32 = 58;

    memory.atomic_write_i32(address, initial_value);

    let previous_value = memory.atomic_rmw_add_i32(address, add_value);

    assert_eq!(previous_value, initial_value);
    let new_value = memory.atomic_read_i32(address);
    assert_eq!(new_value, initial_value + add_value);
}

#[test]
fn test_atomic_rmw_and_i32() {
    let mut memory = LinearMemory::new(1);

    let address: i32 = 4;
    let initial_value: i32 = 0b1100;
    let and_value: i32 = 0b1010;

    memory.atomic_write_i32(address, initial_value);

    let previous_value = memory.atomic_rmw_and_i32(address, and_value);

    assert_eq!(previous_value, initial_value);
    let new_value = memory.atomic_read_i32(address);
    assert_eq!(new_value, initial_value & and_value);
}

#[test]
fn test_atomic_rmw_sub_i32() {
    let mut memory = LinearMemory::new(1);

    let address: i32 = 8;
    let initial_value: i32 = 100;
    let sub_value: i32 = 30;

    memory.atomic_write_i32(address, initial_value);

    let previous_value = memory.atomic_rmw_sub_i32(address, sub_value);

    assert_eq!(previous_value, initial_value);
    let new_value = memory.atomic_read_i32(address);
    assert_eq!(new_value, initial_value - sub_value);
}

#[test]
fn test_atomic_rmw_or_i32() {
    let mut memory = LinearMemory::new(1);

    let address: i32 = 12;
    let initial_value: i32 = 0b1100;
    let or_value: i32 = 0b1010;

    memory.atomic_write_i32(address, initial_value);

    let previous_value = memory.atomic_rmw_or_i32(address, or_value);

    assert_eq!(previous_value, initial_value);
    let new_value = memory.atomic_read_i32(address);
    assert_eq!(new_value, initial_value | or_value);
}

#[test]
fn test_atomic_rmw_xor_i32() {
    let mut memory = LinearMemory::new(1);

    let address: i32 = 16;
    let initial_value: i32 = 0b1100;
    let xor_value: i32 = 0b1010;

    memory.atomic_write_i32(address, initial_value);

    let previous_value = memory.atomic_rmw_xor_i32(address, xor_value);

    assert_eq!(previous_value, initial_value);
    let new_value = memory.atomic_read_i32(address);
    assert_eq!(new_value, initial_value ^ xor_value);
}

#[test]
fn test_atomic_rmw_exchange_i32() {
    let mut memory = LinearMemory::new(1);

    let address: i32 = 20;
    let initial_value: i32 = 12345;
    let exchange_value: i32 = 54321;

    memory.atomic_write_i32(address, initial_value);

    let previous_value = memory.atomic_rmw_exchange_i32(address, exchange_value);

    assert_eq!(previous_value, initial_value);
    let new_value = memory.atomic_read_i32(address);
    assert_eq!(new_value, exchange_value);
}

#[test]
fn test_atomic_rmw_add_i32_to_i8() {
    let mut memory = LinearMemory::new(1);

    let address: i32 = 0;
    let initial_value: i8 = 42;
    let add_value: i8 = 58;

    memory.atomic_write_i32_to_i8(address, initial_value as i32);

    let previous_value = memory.atomic_rmw_add_i32_to_i8(address, add_value as i32);

    assert_eq!(previous_value, initial_value as i32);
    let new_value = memory.atomic_read_i32_from_i8(address) as i8;
    assert_eq!(new_value, initial_value + add_value);
}

#[test]
fn test_atomic_rmw_and_i32_to_i8() {
    let mut memory = LinearMemory::new(1);

    let address: i32 = 4;
    let initial_value: i8 = 0b1100;
    let and_value: i8 = 0b1010;

    memory.atomic_write_i32_to_i8(address, initial_value as i32);

    let previous_value = memory.atomic_rmw_and_i32_to_i8(address, and_value as i32);

    assert_eq!(previous_value, initial_value as i32);
    let new_value = memory.atomic_read_i32_from_i8(address) as i8;
    assert_eq!(new_value, initial_value & and_value);
}

#[test]
fn test_atomic_rmw_sub_i32_to_i8() {
    let mut memory = LinearMemory::new(1);

    let address: i32 = 8;
    let initial_value: i8 = 100;
    let sub_value: i8 = 30;

    memory.atomic_write_i32_to_i8(address, initial_value as i32);

    let previous_value = memory.atomic_rmw_sub_i32_to_i8(address, sub_value as i32);

    assert_eq!(previous_value, initial_value as i32);
    let new_value = memory.atomic_read_i32_from_i8(address) as i8;
    assert_eq!(new_value, initial_value - sub_value);
}

#[test]
fn test_atomic_rmw_or_i32_to_i8() {
    let mut memory = LinearMemory::new(1);

    let address: i32 = 12;
    let initial_value: i8 = 0b1100;
    let or_value: i8 = 0b1010;

    memory.atomic_write_i32_to_i8(address, initial_value as i32);

    let previous_value = memory.atomic_rmw_or_i32_to_i8(address, or_value as i32);

    assert_eq!(previous_value, initial_value as i32);
    let new_value = memory.atomic_read_i32_from_i8(address) as i8;
    assert_eq!(new_value, initial_value | or_value);
}

#[test]
fn test_atomic_rmw_xor_i32_to_i8() {
    let mut memory = LinearMemory::new(1);

    let address: i32 = 16;
    let initial_value: i8 = 0b1100;
    let xor_value: i8 = 0b1010;

    memory.atomic_write_i32_to_i8(address, initial_value as i32);

    let previous_value = memory.atomic_rmw_xor_i32_to_i8(address, xor_value as i32);

    assert_eq!(previous_value, initial_value as i32);
    let new_value = memory.atomic_read_i32_from_i8(address) as i8;
    assert_eq!(new_value, initial_value ^ xor_value);
}

#[test]
fn test_atomic_rmw_exchange_i32_to_i8() {
    let mut memory = LinearMemory::new(1);

    let address: i32 = 20;
    let initial_value: i8 = 123;
    let exchange_value: i8 = 45;

    memory.atomic_write_i32_to_i8(address, initial_value as i32);

    let previous_value = memory.atomic_rmw_exchange_i32_to_i8(address, exchange_value as i32);

    assert_eq!(previous_value, initial_value as i32);
    let new_value = memory.atomic_read_i32_from_i8(address) as i8;
    assert_eq!(new_value, exchange_value);
}

#[test]
fn test_atomic_rmw_add_i32_to_i16() {
    let mut memory = LinearMemory::new(1);

    let address: i32 = 0;
    let initial_value: i16 = 1000;
    let add_value: i16 = 500;

    memory.atomic_write_i32_to_i16(address, initial_value as i32);

    let previous_value = memory.atomic_rmw_add_i32_to_i16(address, add_value as i32);

    assert_eq!(previous_value, initial_value as i32);
    let new_value = memory.atomic_read_i32_from_i16(address) as i16;
    assert_eq!(new_value, initial_value + add_value);
}

#[test]
fn test_atomic_rmw_and_i32_to_i16() {
    let mut memory = LinearMemory::new(1);

    let address: i32 = 4;
    let initial_value: i16 = 0b1100_1100_1100;
    let and_value: i16 = 0b1010_1010_1010;

    memory.atomic_write_i32_to_i16(address, initial_value as i32);

    let previous_value = memory.atomic_rmw_and_i32_to_i16(address, and_value as i32);

    assert_eq!(previous_value, initial_value as i32);
    let new_value = memory.atomic_read_i32_from_i16(address) as i16;
    assert_eq!(new_value, initial_value & and_value);
}

#[test]
fn test_atomic_rmw_sub_i32_to_i16() {
    let mut memory = LinearMemory::new(1);

    let address: i32 = 8;
    let initial_value: i16 = 3000;
    let sub_value: i16 = 1000;

    memory.atomic_write_i32_to_i16(address, initial_value as i32);

    let previous_value = memory.atomic_rmw_sub_i32_to_i16(address, sub_value as i32);

    assert_eq!(previous_value, initial_value as i32);
    let new_value = memory.atomic_read_i32_from_i16(address) as i16;
    assert_eq!(new_value, initial_value - sub_value);
}

#[test]
fn test_atomic_rmw_or_i32_to_i16() {
    let mut memory = LinearMemory::new(1);

    let address: i32 = 12;
    let initial_value: i16 = 0b1100_1100_1100;
    let or_value: i16 = 0b1010_1010_1010;

    memory.atomic_write_i32_to_i16(address, initial_value as i32);

    let previous_value = memory.atomic_rmw_or_i32_to_i16(address, or_value as i32);

    assert_eq!(previous_value, initial_value as i32);
    let new_value = memory.atomic_read_i32_from_i16(address) as i16;
    assert_eq!(new_value, initial_value | or_value);
}

#[test]
fn test_atomic_rmw_xor_i32_to_i16() {
    let mut memory = LinearMemory::new(1);

    let address: i32 = 16;
    let initial_value: i16 = 0b1100_1100_1100;
    let xor_value: i16 = 0b1010_1010_1010;

    memory.atomic_write_i32_to_i16(address, initial_value as i32);

    let previous_value = memory.atomic_rmw_xor_i32_to_i16(address, xor_value as i32);

    assert_eq!(previous_value, initial_value as i32);
    let new_value = memory.atomic_read_i32_from_i16(address) as i16;
    assert_eq!(new_value, initial_value ^ xor_value);
}

#[test]
fn test_atomic_rmw_exchange_i32_to_i16() {
    let mut memory = LinearMemory::new(1);

    let address: i32 = 20;
    let initial_value: i16 = 5000;
    let exchange_value: i16 = 1000;

    memory.atomic_write_i32_to_i16(address, initial_value as i32);

    let previous_value = memory.atomic_rmw_exchange_i32_to_i16(address, exchange_value as i32);

    assert_eq!(previous_value, initial_value as i32);
    let new_value = memory.atomic_read_i32_from_i16(address) as i16;
    assert_eq!(new_value, exchange_value);
}

#[test]
fn test_atomic_rmw_add_i64() {
    let mut memory = LinearMemory::new(1);

    let address: i32 = 0;
    let initial_value: i64 = 123456789101112;
    let add_value: i64 = 987654321;

    memory.atomic_write_i64(address, initial_value);

    let previous_value = memory.atomic_rmw_add_i64(address, add_value);

    assert_eq!(previous_value, initial_value);
    let new_value = memory.atomic_read_i64(address);
    assert_eq!(new_value, initial_value + add_value);
}

#[test]
fn test_atomic_rmw_and_i64() {
    let mut memory = LinearMemory::new(1);

    let address: i32 = 8;
    let initial_value: i64 = -71777214294589696;
    let and_value: i64 = 71777214294589695;

    memory.atomic_write_i64(address, initial_value);

    let previous_value = memory.atomic_rmw_and_i64(address, and_value);

    assert_eq!(previous_value, initial_value);
    let new_value = memory.atomic_read_i64(address);
    assert_eq!(new_value, initial_value & and_value);
}

#[test]
fn test_atomic_rmw_sub_i64() {
    let mut memory = LinearMemory::new(1);

    let address: i32 = 16;
    let initial_value: i64 = 1_000_000_000_000_000;
    let sub_value: i64 = 123_456_789_101_112;

    memory.atomic_write_i64(address, initial_value);

    let previous_value = memory.atomic_rmw_sub_i64(address, sub_value);

    assert_eq!(previous_value, initial_value);
    let new_value = memory.atomic_read_i64(address);
    assert_eq!(new_value, initial_value - sub_value);
}

#[test]
fn test_atomic_rmw_or_i64() {
    let mut memory = LinearMemory::new(1);

    let address: i32 = 24;
    let initial_value: i64 = -71777214294589696;
    let or_value: i64 = 71777214294589695;

    memory.atomic_write_i64(address, initial_value);

    let previous_value = memory.atomic_rmw_or_i64(address, or_value);

    assert_eq!(previous_value, initial_value);
    let new_value = memory.atomic_read_i64(address);
    assert_eq!(new_value, initial_value | or_value);
}

#[test]
fn test_atomic_rmw_xor_i64() {
    let mut memory = LinearMemory::new(1);

    let address: i32 = 32;
    let initial_value: i64 = -71777214294589696;
    let xor_value: i64 = 71777214294589695;

    memory.atomic_write_i64(address, initial_value);

    let previous_value = memory.atomic_rmw_xor_i64(address, xor_value);

    assert_eq!(previous_value, initial_value);
    let new_value = memory.atomic_read_i64(address);
    assert_eq!(new_value, initial_value ^ xor_value);
}

#[test]
fn test_atomic_rmw_exchange_i64() {
    let mut memory = LinearMemory::new(1);

    let address: i32 = 40;
    let initial_value: i64 = 123_456_789_101_112;
    let exchange_value: i64 = 987_654_321_987_654;

    memory.atomic_write_i64(address, initial_value);

    let previous_value = memory.atomic_rmw_exchange_i64(address, exchange_value);

    assert_eq!(previous_value, initial_value);
    let new_value = memory.atomic_read_i64(address);
    assert_eq!(new_value, exchange_value);
}

#[test]
fn test_atomic_rmw_add_i64_to_i8() {
    let mut memory = LinearMemory::new(1);

    let address: i32 = 0;
    let initial_value: i8 = 50;
    let add_value: i8 = 25;

    memory.atomic_write_i32_to_i8(address, initial_value as i32);

    let previous_value = memory.atomic_rmw_add_i64_to_i8(address, add_value as i64);

    assert_eq!(previous_value, initial_value as i64);
    let new_value = memory.atomic_read_i32_from_i8(address) as i8;
    assert_eq!(new_value, initial_value + add_value);
}

#[test]
fn test_atomic_rmw_and_i64_to_i8() {
    let mut memory = LinearMemory::new(1);

    let address: i32 = 8;
    let initial_value: i8 = 12;
    let and_value: i8 = 10;

    memory.atomic_write_i32_to_i8(address, initial_value as i32);

    let previous_value = memory.atomic_rmw_and_i64_to_i8(address, and_value as i64);

    assert_eq!(previous_value, initial_value as i64);
    let new_value = memory.atomic_read_i32_from_i8(address) as i8;
    assert_eq!(new_value, initial_value & and_value);
}

#[test]
fn test_atomic_rmw_sub_i64_to_i8() {
    let mut memory = LinearMemory::new(1);

    let address: i32 = 16;
    let initial_value: i8 = 100;
    let sub_value: i8 = 30;

    memory.atomic_write_i32_to_i8(address, initial_value as i32);

    let previous_value = memory.atomic_rmw_sub_i64_to_i8(address, sub_value as i64);

    assert_eq!(previous_value, initial_value as i64);
    let new_value = memory.atomic_read_i32_from_i8(address) as i8;
    assert_eq!(new_value, initial_value - sub_value);
}

#[test]
fn test_atomic_rmw_or_i64_to_i8() {
    let mut memory = LinearMemory::new(1);

    let address: i32 = 24;
    let initial_value: i8 = 12;
    let or_value: i8 = 10;

    memory.atomic_write_i32_to_i8(address, initial_value as i32);

    let previous_value = memory.atomic_rmw_or_i64_to_i8(address, or_value as i64);

    assert_eq!(previous_value, initial_value as i64);
    let new_value = memory.atomic_read_i32_from_i8(address) as i8;
    assert_eq!(new_value, initial_value | or_value);
}

#[test]
fn test_atomic_rmw_xor_i64_to_i8() {
    let mut memory = LinearMemory::new(1);

    let address: i32 = 32;
    let initial_value: i8 = 12;
    let xor_value: i8 = 10;

    memory.atomic_write_i32_to_i8(address, initial_value as i32);

    let previous_value = memory.atomic_rmw_xor_i64_to_i8(address, xor_value as i64);

    assert_eq!(previous_value, initial_value as i64);
    let new_value = memory.atomic_read_i32_from_i8(address) as i8;
    assert_eq!(new_value, initial_value ^ xor_value);
}

#[test]
fn test_atomic_rmw_exchange_i64_to_i8() {
    let mut memory = LinearMemory::new(1);

    let address: i32 = 40;
    let initial_value: i8 = 100;
    let exchange_value: i8 = 50;

    memory.atomic_write_i32_to_i8(address, initial_value as i32);

    let previous_value = memory.atomic_rmw_exchange_i64_to_i8(address, exchange_value as i64);

    assert_eq!(previous_value, initial_value as i64);
    let new_value = memory.atomic_read_i32_from_i8(address) as i8;
    assert_eq!(new_value, exchange_value);
}

#[test]
fn test_atomic_rmw_add_i64_to_i16() {
    let mut memory = LinearMemory::new(1);

    let address: i32 = 0;
    let initial_value: i16 = 500;
    let add_value: i16 = 200;

    memory.atomic_write_i32_to_i16(address, initial_value as i32);

    let previous_value = memory.atomic_rmw_add_i64_to_i16(address, add_value as i64);

    assert_eq!(previous_value, initial_value as i64);
    let new_value = memory.atomic_read_i32_from_i16(address) as i16;
    assert_eq!(new_value, initial_value + add_value);
}

#[test]
fn test_atomic_rmw_and_i64_to_i16() {
    let mut memory = LinearMemory::new(1);

    let address: i32 = 8;
    let initial_value: i16 = 1024;
    let and_value: i16 = 768;

    memory.atomic_write_i32_to_i16(address, initial_value as i32);

    let previous_value = memory.atomic_rmw_and_i64_to_i16(address, and_value as i64);

    assert_eq!(previous_value, initial_value as i64);
    let new_value = memory.atomic_read_i32_from_i16(address) as i16;
    assert_eq!(new_value, initial_value & and_value);
}

#[test]
fn test_atomic_rmw_sub_i64_to_i16() {
    let mut memory = LinearMemory::new(1);

    let address: i32 = 16;
    let initial_value: i16 = 3000;
    let sub_value: i16 = 1000;

    memory.atomic_write_i32_to_i16(address, initial_value as i32);

    let previous_value = memory.atomic_rmw_sub_i64_to_i16(address, sub_value as i64);

    assert_eq!(previous_value, initial_value as i64);
    let new_value = memory.atomic_read_i32_from_i16(address) as i16;
    assert_eq!(new_value, initial_value - sub_value);
}

#[test]
fn test_atomic_rmw_or_i64_to_i16() {
    let mut memory = LinearMemory::new(1);

    let address: i32 = 24;
    let initial_value: i16 = 1024;
    let or_value: i16 = 256;

    memory.atomic_write_i32_to_i16(address, initial_value as i32);

    let previous_value = memory.atomic_rmw_or_i64_to_i16(address, or_value as i64);

    assert_eq!(previous_value, initial_value as i64);
    let new_value = memory.atomic_read_i32_from_i16(address) as i16;
    assert_eq!(new_value, initial_value | or_value);
}

#[test]
fn test_atomic_rmw_xor_i64_to_i16() {
    let mut memory = LinearMemory::new(1);

    let address: i32 = 32;
    let initial_value: i16 = 512;
    let xor_value: i16 = 256;

    memory.atomic_write_i32_to_i16(address, initial_value as i32);

    let previous_value = memory.atomic_rmw_xor_i64_to_i16(address, xor_value as i64);

    assert_eq!(previous_value, initial_value as i64);
    let new_value = memory.atomic_read_i32_from_i16(address) as i16;
    assert_eq!(new_value, initial_value ^ xor_value);
}

#[test]
fn test_atomic_rmw_exchange_i64_to_i16() {
    let mut memory = LinearMemory::new(1);

    let address: i32 = 40;
    let initial_value: i16 = 1500;
    let exchange_value: i16 = 1000;

    memory.atomic_write_i32_to_i16(address, initial_value as i32);

    let previous_value = memory.atomic_rmw_exchange_i64_to_i16(address, exchange_value as i64);

    assert_eq!(previous_value, initial_value as i64);
    let new_value = memory.atomic_read_i32_from_i16(address) as i16;
    assert_eq!(new_value, exchange_value);
}

#[test]
fn test_atomic_rmw_add_i64_to_i32() {
    let mut memory = LinearMemory::new(1);

    let address: i32 = 0;
    let initial_value: i32 = 10_000;
    let add_value: i32 = 5_000;

    memory.atomic_write_i32(address, initial_value);

    let previous_value = memory.atomic_rmw_add_i64_to_i32(address, add_value as i64);

    assert_eq!(previous_value, initial_value as i64);
    let new_value = memory.atomic_read_i32(address);
    assert_eq!(new_value, initial_value + add_value);
}

#[test]
fn test_atomic_rmw_and_i64_to_i32() {
    let mut memory = LinearMemory::new(1);

    let address: i32 = 8;
    let initial_value: i32 = 12_000;
    let and_value: i32 = 8_000;

    memory.atomic_write_i32(address, initial_value);

    let previous_value = memory.atomic_rmw_and_i64_to_i32(address, and_value as i64);

    assert_eq!(previous_value, initial_value as i64);
    let new_value = memory.atomic_read_i32(address);
    assert_eq!(new_value, initial_value & and_value);
}

#[test]
fn test_atomic_rmw_sub_i64_to_i32() {
    let mut memory = LinearMemory::new(1);

    let address: i32 = 16;
    let initial_value: i32 = 100_000;
    let sub_value: i32 = 30_000;

    memory.atomic_write_i32(address, initial_value);

    let previous_value = memory.atomic_rmw_sub_i64_to_i32(address, sub_value as i64);

    assert_eq!(previous_value, initial_value as i64);
    let new_value = memory.atomic_read_i32(address);
    assert_eq!(new_value, initial_value - sub_value);
}

#[test]
fn test_atomic_rmw_or_i64_to_i32() {
    let mut memory = LinearMemory::new(1);

    let address: i32 = 24;
    let initial_value: i32 = 12_000;
    let or_value: i32 = 8_000;

    memory.atomic_write_i32(address, initial_value);

    let previous_value = memory.atomic_rmw_or_i64_to_i32(address, or_value as i64);

    assert_eq!(previous_value, initial_value as i64);
    let new_value = memory.atomic_read_i32(address);
    assert_eq!(new_value, initial_value | or_value);
}

#[test]
fn test_atomic_rmw_xor_i64_to_i32() {
    let mut memory = LinearMemory::new(1);

    let address: i32 = 32;
    let initial_value: i32 = 12_000;
    let xor_value: i32 = 8_000;

    memory.atomic_write_i32(address, initial_value);

    let previous_value = memory.atomic_rmw_xor_i64_to_i32(address, xor_value as i64);

    assert_eq!(previous_value, initial_value as i64);
    let new_value = memory.atomic_read_i32(address);
    assert_eq!(new_value, initial_value ^ xor_value);
}

#[test]
fn test_atomic_rmw_exchange_i64_to_i32() {
    let mut memory = LinearMemory::new(1);

    let address: i32 = 40;
    let initial_value: i32 = 25_000;
    let exchange_value: i32 = 10_000;

    memory.atomic_write_i32(address, initial_value);

    let previous_value = memory.atomic_rmw_exchange_i64_to_i32(address, exchange_value as i64);

    assert_eq!(previous_value, initial_value as i64);
    let new_value = memory.atomic_read_i32(address);
    assert_eq!(new_value, exchange_value);
}

#[test]
fn test_atomic_compare_exchange_i32() {
    let mut memory = LinearMemory::new(1);

    let address: i32 = 0;
    let initial_value: i32 = 100;
    let expected: i32 = 100;
    let new_value: i32 = 200;

    memory.atomic_write_i32(address, initial_value);

    let result = memory.atomic_compare_exchange_i32(address, expected, new_value);

    assert_eq!(result, initial_value);
    let final_value = memory.atomic_read_i32(address);
    assert_eq!(final_value, new_value);
}

#[test]
fn test_atomic_compare_exchange_i32_to_i8() {
    let mut memory = LinearMemory::new(1);

    let address: i32 = 8;
    let initial_value: i8 = 50;
    let expected: i8 = 50;
    let new_value: i8 = 100;

    memory.atomic_write_i32_to_i8(address, initial_value as i32);

    let result =
        memory.atomic_compare_exchange_i32_to_i8(address, expected as i32, new_value as i32);

    assert_eq!(result, initial_value as i32);
    let final_value = memory.atomic_read_i32_from_i8(address) as i8;
    assert_eq!(final_value, new_value);
}

#[test]
fn test_atomic_compare_exchange_i32_to_i16() {
    let mut memory = LinearMemory::new(1);

    let address: i32 = 16;
    let initial_value: i16 = 1000;
    let expected: i16 = 1000;
    let new_value: i16 = 2000;

    memory.atomic_write_i32_to_i16(address, initial_value as i32);

    let result =
        memory.atomic_compare_exchange_i32_to_i16(address, expected as i32, new_value as i32);

    assert_eq!(result, initial_value as i32);
    let final_value = memory.atomic_read_i32_from_i16(address) as i16;
    assert_eq!(final_value, new_value);
}

#[test]
fn test_atomic_compare_exchange_i64() {
    let mut memory = LinearMemory::new(1);

    let address: i32 = 0;
    let initial_value: i64 = 100_000;
    let expected: i64 = 100_000;
    let new_value: i64 = 200_000;

    memory.atomic_write_i64(address, initial_value);

    let result = memory.atomic_compare_exchange_i64(address, expected, new_value);

    assert_eq!(result, initial_value);
    let final_value = memory.atomic_read_i64(address);
    assert_eq!(final_value, new_value);
}

#[test]
fn test_atomic_compare_exchange_i64_to_i8() {
    let mut memory = LinearMemory::new(1);

    let address: i32 = 8;
    let initial_value: i8 = 50;
    let expected: i8 = 50;
    let new_value: i8 = 100;

    memory.atomic_write_i32_to_i8(address, initial_value as i32);

    let result =
        memory.atomic_compare_exchange_i64_to_i8(address, expected as i64, new_value as i64);

    assert_eq!(result, initial_value as i64);
    let final_value = memory.atomic_read_i32_from_i8(address) as i8;
    assert_eq!(final_value, new_value);
}

#[test]
fn test_atomic_compare_exchange_i64_to_i16() {
    let mut memory = LinearMemory::new(1);

    let address: i32 = 16;
    let initial_value: i16 = 1_000;
    let expected: i16 = 1_000;
    let new_value: i16 = 2_000;

    memory.atomic_write_i32_to_i16(address, initial_value as i32);

    let result =
        memory.atomic_compare_exchange_i64_to_i16(address, expected as i64, new_value as i64);

    assert_eq!(result, initial_value as i64);
    let final_value = memory.atomic_read_i32_from_i16(address) as i16;
    assert_eq!(final_value, new_value);
}

#[test]
fn test_atomic_compare_exchange_i64_to_i32() {
    let mut memory = LinearMemory::new(1);

    let address: i32 = 24;
    let initial_value: i32 = 10_000;
    let expected: i32 = 10_000;
    let new_value: i32 = 20_000;

    memory.atomic_write_i32(address, initial_value);

    let result =
        memory.atomic_compare_exchange_i64_to_i32(address, expected as i64, new_value as i64);

    assert_eq!(result, initial_value as i64);
    let final_value = memory.atomic_read_i32(address);
    assert_eq!(final_value, new_value);
}
