//! Structs and enums related to the concept of an object.
//!
//! An object is a published file or folder. The registry stores metadata
//! only: the transfer address and content hash are opaque tokens produced
//! by the peer-to-peer transport and are stored and forwarded without
//! interpretation.

use vstd::prelude::*;

verus! {

/// The kind of an object.
pub enum ObjectKind {
    /// The object is a file.
    File {
        /// The name of the file.
        name: String,
    },
    /// The object is a folder.
    Folder {
        /// The name of the folder.
        name: String,
    },
}

impl ObjectKind {
    /// The name carried by either variant.
    pub open spec fn spec_name(self) -> Seq<char> {
        match self {
            ObjectKind::File { name } => name@,
            ObjectKind::Folder { name } => name@,
        }
    }

    /// The name of the file or folder.
    pub fn name(&self) -> (r: &String)
        ensures
            r@ == self.spec_name(),
    {
        match self {
            ObjectKind::File { name } => name,
            ObjectKind::Folder { name } => name,
        }
    }

    /// A short word for the kind, as shown to a user.
    pub fn label(&self) -> (r: &'static str)
        ensures
            self is File ==> r@ == "file"@,
            self is Folder ==> r@ == "folder"@,
    {
        match self {
            ObjectKind::File { .. } => "file",
            ObjectKind::Folder { .. } => "folder",
        }
    }
}

impl Clone for ObjectKind {
    fn clone(&self) -> (r: Self)
        ensures
            r == *self,
    {
        match self {
            ObjectKind::File { name } => ObjectKind::File { name: name.clone() },
            ObjectKind::Folder { name } => ObjectKind::Folder { name: name.clone() },
        }
    }
}

/// Entry that holds the relevant data of an object available for download.
pub struct ObjectEntry {
    /// The address of the node that is hosting the object, as the transport
    /// serialises it. Opaque to the registry.
    pub node_address: String,
    /// The content hash the transport uses to fetch the object's bytes.
    /// Opaque to the registry.
    pub file_hash: String,
    /// The kind of object to be downloaded.
    pub kind: ObjectKind,
    /// The number of bytes of the object.
    pub size: u64,
}

impl Clone for ObjectEntry {
    fn clone(&self) -> (r: Self)
        ensures
            r == *self,
    {
        ObjectEntry {
            node_address: self.node_address.clone(),
            file_hash: self.file_hash.clone(),
            kind: self.kind.clone(),
            size: self.size,
        }
    }
}

} // verus!
