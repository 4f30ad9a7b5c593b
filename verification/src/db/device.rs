//! Devices: address validation, duplicate detection, merging of updates and
//! reading of stored rows.
use vstd::prelude::*;

use crate::error::AppError;
use crate::models::{Brand, Device, NewDevice, UpdateDevice};
use crate::text::{owned, push_str};

verus! {

/// The detail of the error for an invalid IP address.
pub open spec fn invalid_ip_detail(ip: Seq<char>) -> Seq<char> {
    "不合法的 IP 位址："@ + ip
}

/// Accepts an address that is an IP address; `is_ip` tells whether
/// `IpAddr::from_str` reads `ip` (the caller parses it).
pub fn validate_ip(ip: &str, is_ip: bool) -> (r: Result<(), AppError>)
    ensures
        is_ip ==> r is Ok,
        !is_ip ==> (r matches Err(AppError::Validation(d)) && d@ == invalid_ip_detail(ip@)),
{
    if is_ip {
        Ok(())
    } else {
        let mut d = owned("不合法的 IP 位址：");
        push_str(&mut d, ip);
        Err(AppError::Validation(d))
    }
}

/// Refuses an address already used by another device.
pub fn reject_duplicate_ip(ip: &str, taken: bool) -> (r: Result<(), AppError>)
    ensures
        !taken ==> r is Ok,
        taken ==> (r matches Err(AppError::DuplicateIp(d)) && d@ == ip@),
{
    if taken {
        Err(AppError::DuplicateIp(owned(ip)))
    } else {
        Ok(())
    }
}

/// Checks a new device before it is stored: the address must be an IP
/// address (`Validation`), and must not be taken (`DuplicateIp`).
/// `is_ip` tells whether the address parses as an IP address, `taken`
/// whether another device already has it.
pub fn check_new_device(input: &NewDevice, is_ip: bool, taken: bool) -> (r: Result<(), AppError>)
    ensures
        !is_ip ==> (r matches Err(AppError::Validation(d)) && d@ == invalid_ip_detail(
            input.ip_address@,
        )),
        is_ip && taken ==> (r matches Err(AppError::DuplicateIp(d)) && d@ == input.ip_address@),
        is_ip && !taken ==> r is Ok,
{
    validate_ip(input.ip_address.as_str(), is_ip)?;
    reject_duplicate_ip(input.ip_address.as_str(), taken)
}

/// The stored fields of a device after an update.
#[derive(Debug, Clone)]
pub struct DeviceRecord {
    pub ip_address: String,
    pub username: String,
    pub note: Option<String>,
    pub brand: Brand,
    /// The new password, when the update sets one.
    pub password: Option<String>,
}

/// Applies an update to a device: each field given in the patch replaces
/// the current one, each field left out keeps its value.
pub fn merge_device_update(existing: Device, patch: UpdateDevice) -> (r: DeviceRecord)
    ensures
        r.ip_address == (match patch.ip_address {
            Some(v) => v,
            None => existing.ip_address,
        }),
        r.username == (match patch.username {
            Some(v) => v,
            None => existing.username,
        }),
        r.note == (match patch.note {
            Some(v) => Some(v),
            None => existing.note,
        }),
        r.brand == (match patch.brand {
            Some(v) => v,
            None => existing.brand,
        }),
        r.password == patch.password,
{
    DeviceRecord {
        ip_address: match patch.ip_address {
            Some(v) => v,
            None => existing.ip_address,
        },
        username: match patch.username {
            Some(v) => v,
            None => existing.username,
        },
        note: match patch.note {
            Some(v) => Some(v),
            None => existing.note,
        },
        brand: match patch.brand {
            Some(v) => v,
            None => existing.brand,
        },
        password: patch.password,
    }
}

/// Builds a device from a stored row; a stored brand name that is not
/// supported is reported as `UnsupportedBrand`.
pub fn device_from_row(
    id: String,
    ip_address: String,
    username: String,
    note: Option<String>,
    brand: String,
    created_at: String,
    updated_at: String,
) -> (r: Result<Device, AppError>)
    ensures
        match Brand::spec_parse(brand@) {
            Some(b) => r matches Ok(d) && d.brand == b && d.id == id && d.ip_address == ip_address
                && d.username == username && d.note == note && d.created_at == created_at
                && d.updated_at == updated_at,
            None => r matches Err(AppError::UnsupportedBrand(s)) && s@ == brand@,
        },
{
    match Brand::parse(brand.as_str()) {
        Some(b) => Ok(Device { id, ip_address, username, note, brand: b, created_at, updated_at }),
        None => Err(AppError::UnsupportedBrand(brand)),
    }
}

} // verus!
