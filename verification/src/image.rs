//! A module image in memory: its bytes, its name, and the header fix-up that
//! a class of older images needs before they are hashed and mounted.

use vstd::prelude::*;
use crate::bytes::{read_u32_le, write_u32_le, splice, u32_at, u32_le, lemma_u32_at_splice};
use crate::digest::{sha256, Sha256Hash};
use crate::error::LoaderError;

verus! {

/// Where an image stores the offset of its MOD header.
pub const MOD_OFFSET_FIELD: usize = 4;

/// Offset, from the MOD header offset, of the field that holds the end of the
/// uninitialised data.
pub const BSS_END_FIELD: usize = 0x24;

/// Offset, from the MOD header offset, of the field that holds the place of
/// the module object.
pub const MODULE_OBJECT_FIELD: usize = 0x34;

/// Offset, from the MOD header offset, of the first byte behind the two
/// fields.
pub const MOD_FIELDS_END: usize = 0x38;

/// Room that the runtime needs behind the uninitialised data for the module
/// object.
pub const MODULE_OBJECT_SIZE: u32 = 0xD0;

/// A module image: the file's bytes under the file's name.
#[derive(Debug)]
pub struct NroFile {
    data: Vec<u8>,
    name: String,
}

/// What an `NroFile` holds.
pub ghost struct Image {
    pub name: Seq<char>,
    pub data: Seq<u8>,
}

impl View for NroFile {
    type V = Image;

    closed spec fn view(&self) -> Image {
        Image { name: self.name@, data: self.data@ }
    }
}

/// The MOD header offset that `image` declares.
pub open spec fn mod_offset(image: Seq<u8>) -> int {
    u32_at(image, MOD_OFFSET_FIELD as int)
}

/// Whether `image` is long enough to hold the MOD header offset and, where
/// that offset points, the two fields that the fix-up reads.
pub open spec fn has_mod_fields(image: Seq<u8>) -> bool {
    image.len() >= MOD_OFFSET_FIELD + 4 && mod_offset(image) + MOD_FIELDS_END <= image.len()
}

/// The end of the uninitialised data that `image` declares.
pub open spec fn bss_end(image: Seq<u8>) -> int {
    u32_at(image, mod_offset(image) + BSS_END_FIELD)
}

/// The place of the module object that `image` declares.
pub open spec fn module_object(image: Seq<u8>) -> int {
    u32_at(image, mod_offset(image) + MODULE_OBJECT_FIELD)
}

/// Whether the fix-up changes `image`: its two fields exist and are equal,
/// and the end of the uninitialised data can be advanced within 32 bits.
pub open spec fn needs_fix(image: Seq<u8>) -> bool {
    &&& has_mod_fields(image)
    &&& bss_end(image) == module_object(image)
    &&& bss_end(image) + MODULE_OBJECT_SIZE <= u32::MAX
}

/// `image` after the fix-up.
pub open spec fn fixed(image: Seq<u8>) -> Seq<u8> {
    if needs_fix(image) {
        splice(
            image,
            mod_offset(image) + BSS_END_FIELD,
            u32_le((bss_end(image) + MODULE_OBJECT_SIZE) as u32),
        )
    } else {
        image
    }
}

/// Where the two fields of an image are equal, the fix-up advances the end of
/// the uninitialised data by `MODULE_OBJECT_SIZE` and changes no byte outside
/// that field. Where they differ, it changes nothing.
pub proof fn lemma_fix_up(image: Seq<u8>)
    requires
        has_mod_fields(image),
        bss_end(image) + MODULE_OBJECT_SIZE <= u32::MAX,
    ensures
        fixed(image).len() == image.len(),
        mod_offset(fixed(image)) == mod_offset(image),
        module_object(fixed(image)) == module_object(image),
        bss_end(image) == module_object(image) ==> bss_end(fixed(image)) == bss_end(image)
            + MODULE_OBJECT_SIZE,
        bss_end(image) == module_object(image) ==> forall|i: int|
            0 <= i < image.len() && !(mod_offset(image) + BSS_END_FIELD <= i < mod_offset(image)
                + BSS_END_FIELD + 4) ==> fixed(image)[i] == image[i],
        bss_end(image) != module_object(image) ==> fixed(image) == image,
{
    if needs_fix(image) {
        let at = mod_offset(image) + BSS_END_FIELD;
        let v = (bss_end(image) + MODULE_OBJECT_SIZE) as u32;
        lemma_u32_at_splice(image, at, v, MOD_OFFSET_FIELD as int);
        lemma_u32_at_splice(image, at, v, mod_offset(image) + MODULE_OBJECT_FIELD);
    }
}

/// A second fix-up changes nothing: an image is fixed at most once.
pub proof fn lemma_fix_up_once(image: Seq<u8>)
    ensures
        fixed(fixed(image)) == fixed(image),
{
    if needs_fix(image) {
        lemma_fix_up(image);
    }
}

impl NroFile {
    /// An image of the bytes `data` under the name `name`.
    pub fn new(name: String, data: Vec<u8>) -> (nro: NroFile)
        ensures
            nro@ == (Image { name: name@, data: data@ }),
    {
        NroFile { data, name }
    }

    /// Makes an image of what reading a file gave: the bytes that were read,
    /// under the file's name, or the failure of the read.
    pub fn open(name: String, contents: Result<Vec<u8>, std::io::Error>) -> (r: Result<
        NroFile,
        LoaderError,
    >)
        ensures
            match contents {
                Ok(data) => r matches Ok(nro) && nro@ == (Image { name: name@, data: data@ }),
                Err(error) => r matches Err(e) && e == LoaderError::IO(error),
            },
    {
        match contents {
            Ok(data) => Ok(NroFile { data, name }),
            Err(error) => Err(LoaderError::IO(error)),
        }
    }

    /// The image's bytes.
    pub fn data(&self) -> (data: &Vec<u8>)
        ensures
            data@ == self@.data,
    {
        &self.data
    }

    /// The image's name.
    pub fn name(&self) -> (name: &String)
        ensures
            name@ == self@.name,
    {
        &self.name
    }

    /// Takes the image apart into its name and its bytes.
    pub fn into_parts(self) -> (parts: (String, Vec<u8>))
        ensures
            parts.0@ == self@.name,
            parts.1@ == self@.data,
    {
        (self.name, self.data)
    }

    /// Repairs the header of an image that declares its module object at the
    /// end of its uninitialised data, by advancing that end by
    /// `MODULE_OBJECT_SIZE`. An image whose fields differ is left as it is, and
    /// so is one that is too short to hold the fields, or whose end of
    /// uninitialised data cannot be advanced within 32 bits.
    pub fn fix_bss_size(&mut self)
        ensures
            final(self)@.name == old(self)@.name,
            final(self)@.data == fixed(old(self)@.data),
    {
        let len: usize = self.data.len();
        if len < MOD_OFFSET_FIELD + 4 {
            return ;
        }
        let offset: u32 = read_u32_le(self.data.as_slice(), MOD_OFFSET_FIELD);
        if offset as u64 + MOD_FIELDS_END as u64 > len as u64 {
            return ;
        }
        let bss_end_at: usize = offset as usize + BSS_END_FIELD;
        let bss_end: u32 = read_u32_le(self.data.as_slice(), bss_end_at);
        let module_object: u32 = read_u32_le(
            self.data.as_slice(),
            offset as usize + MODULE_OBJECT_FIELD,
        );
        if bss_end == module_object && bss_end <= u32::MAX - MODULE_OBJECT_SIZE {
            write_u32_le(&mut self.data, bss_end_at, bss_end + MODULE_OBJECT_SIZE);
        }
    }

    /// The content hash of the image's bytes.
    pub fn hash(&self) -> (hash: Sha256Hash)
        ensures
            hash@ == sha256(self@.data),
    {
        Sha256Hash::new(self.data.as_slice())
    }
}

} // verus!
