//! Verified planning, validation and ownership logic for flat Win32 calls,
//! native resource lifetimes, caller-owned aggregate storage, asynchronous
//! file I/O and dynamically built WinRT collections.

pub mod abi;
pub mod append_only_arena;
pub mod error;
pub mod map;
pub mod property_value;
pub mod vector;
pub mod vector_pod;
pub mod win32;
pub mod win32_aggregate;
pub mod win32_contract;
pub mod win32_convert;
pub mod win32_invoke;
pub mod win32_io;
pub mod win32_module;
pub mod win32_plan;
pub mod win32_resource;
pub mod winapp;
