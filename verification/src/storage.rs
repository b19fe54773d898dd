//! An abstract driver for reading and writing binary objects, implemented by
//! whatever medium backs it.
use vstd::prelude::*;
use crate::error::Error;

verus! {

/// Read and write binary objects by key.
pub trait Storage<Key> {
    /// Read the bytes stored under a key.
    fn read(&self, key: Key) -> Result<Vec<u8>, Error>;

    /// Write bytes and return the key they are stored under.
    fn write(&mut self, bytes: &[u8]) -> Result<Key, Error>;

    /// Delete the bytes stored under a key.
    fn delete(&mut self, key: Key) -> Result<(), Error>;
}

} // verus!
