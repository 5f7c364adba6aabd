//! Directory-listing entries and their JSON form.
//!
//! The `ls` and `glob` commands answer with the object
//! `{"entries":[...]}` where each entry carries the file's name, its type
//! (`file` or `dir`) and three numbers.

use vstd::prelude::*;

verus! {

use vstd::utf8::encode_utf8;
use crate::commands::command_error::{json_escape_bytes, json_escape};
use crate::util::{vec_push_all, u64_to_dec, dec_bytes_of};

/// Whether an entry is a plain file or a directory.
#[derive(Copy, Clone, PartialEq, Eq, Structural, Debug)]
pub enum FileType {
    File,
    Folder,
}

/// One entry of a listing.
#[derive(Debug, PartialEq)]
pub struct FileInfos {
    pub name: String,
    pub file_type: FileType,
    pub creation_timestamp: u64,
    pub modification_timestamp: u64,
    pub size_in_bytes: u64,
}

/// Mathematical value of a listing entry.
pub struct FileInfosV {
    pub name: Seq<char>,
    pub file_type: FileType,
    pub creation_timestamp: u64,
    pub modification_timestamp: u64,
    pub size_in_bytes: u64,
}

impl View for FileInfos {
    type V = FileInfosV;

    open spec fn view(&self) -> FileInfosV {
        FileInfosV {
            name: self.name@,
            file_type: self.file_type,
            creation_timestamp: self.creation_timestamp,
            modification_timestamp: self.modification_timestamp,
            size_in_bytes: self.size_in_bytes,
        }
    }
}

/// The JSON value naming an entry's type.
pub open spec fn file_type_json(t: FileType) -> Seq<u8> {
    match t {
        FileType::File => seq![102u8, 105u8, 108u8, 101u8],
        FileType::Folder => seq![100u8, 105u8, 114u8],
    }
}

/// The JSON object describing one entry.
pub open spec fn file_infos_json(e: FileInfosV) -> Seq<u8> {
    seq![123u8, 34u8, 110u8, 97u8, 109u8, 101u8, 34u8, 58u8, 34u8] + json_escape_bytes(encode_utf8(e.name)) + seq![34u8, 44u8, 34u8, 102u8, 105u8, 108u8, 101u8, 84u8, 121u8, 112u8, 101u8, 34u8, 58u8, 34u8]
        + file_type_json(e.file_type) + seq![34u8, 44u8, 34u8, 99u8, 114u8, 101u8, 97u8, 116u8, 105u8, 111u8, 110u8, 84u8, 105u8, 109u8, 101u8, 115u8, 116u8, 97u8, 109u8, 112u8, 34u8, 58u8] + dec_bytes_of(
        e.creation_timestamp as int,
    ) + seq![44u8, 34u8, 109u8, 111u8, 100u8, 105u8, 102u8, 105u8, 99u8, 97u8, 116u8, 105u8, 111u8, 110u8, 84u8, 105u8, 109u8, 101u8, 115u8, 116u8, 97u8, 109u8, 112u8, 34u8, 58u8] + dec_bytes_of(e.modification_timestamp as int)
        + seq![44u8, 34u8, 115u8, 105u8, 122u8, 101u8, 73u8, 110u8, 66u8, 121u8, 116u8, 101u8, 115u8, 34u8, 58u8] + dec_bytes_of(e.size_in_bytes as int) + seq![125u8]
}

/// The comma-separated entry objects.
pub open spec fn entries_json_items(s: Seq<FileInfosV>) -> Seq<u8>
    decreases s.len(),
{
    if s.len() == 0 {
        Seq::empty()
    } else if s.len() == 1 {
        file_infos_json(s[0])
    } else {
        entries_json_items(s.drop_last()) + seq![44u8] + file_infos_json(s.last())
    }
}

/// The whole listing payload: `{"entries":[...]}`.
pub open spec fn file_list_json_of(s: Seq<FileInfosV>) -> Seq<u8> {
    seq![123u8, 34u8, 101u8, 110u8, 116u8, 114u8, 105u8, 101u8, 115u8, 34u8, 58u8, 91u8] + entries_json_items(s) + seq![93u8, 125u8]
}

fn lit_name_open() -> (r: Vec<u8>)
    ensures
        r@ == seq![123u8, 34u8, 110u8, 97u8, 109u8, 101u8, 34u8, 58u8, 34u8],
{
    let mut r: Vec<u8> = Vec::new();
    r.push(123);
    r.push(34);
    r.push(110);
    r.push(97);
    r.push(109);
    r.push(101);
    r.push(34);
    r.push(58);
    r.push(34);
    assert(r@ =~= seq![123u8, 34u8, 110u8, 97u8, 109u8, 101u8, 34u8, 58u8, 34u8]);
    r
}

fn lit_file_type() -> (r: Vec<u8>)
    ensures
        r@ == seq![34u8, 44u8, 34u8, 102u8, 105u8, 108u8, 101u8, 84u8, 121u8, 112u8, 101u8, 34u8, 58u8, 34u8],
{
    let mut r: Vec<u8> = Vec::new();
    r.push(34);
    r.push(44);
    r.push(34);
    r.push(102);
    r.push(105);
    r.push(108);
    r.push(101);
    r.push(84);
    r.push(121);
    r.push(112);
    r.push(101);
    r.push(34);
    r.push(58);
    r.push(34);
    assert(r@ =~= seq![34u8, 44u8, 34u8, 102u8, 105u8, 108u8, 101u8, 84u8, 121u8, 112u8, 101u8, 34u8, 58u8, 34u8]);
    r
}

fn lit_creation() -> (r: Vec<u8>)
    ensures
        r@ == seq![34u8, 44u8, 34u8, 99u8, 114u8, 101u8, 97u8, 116u8, 105u8, 111u8, 110u8, 84u8, 105u8, 109u8, 101u8, 115u8, 116u8, 97u8, 109u8, 112u8, 34u8, 58u8],
{
    let mut r: Vec<u8> = Vec::new();
    r.push(34);
    r.push(44);
    r.push(34);
    r.push(99);
    r.push(114);
    r.push(101);
    r.push(97);
    r.push(116);
    r.push(105);
    r.push(111);
    r.push(110);
    r.push(84);
    r.push(105);
    r.push(109);
    r.push(101);
    r.push(115);
    r.push(116);
    r.push(97);
    r.push(109);
    r.push(112);
    r.push(34);
    r.push(58);
    assert(r@ =~= seq![34u8, 44u8, 34u8, 99u8, 114u8, 101u8, 97u8, 116u8, 105u8, 111u8, 110u8, 84u8, 105u8, 109u8, 101u8, 115u8, 116u8, 97u8, 109u8, 112u8, 34u8, 58u8]);
    r
}

fn lit_modification() -> (r: Vec<u8>)
    ensures
        r@ == seq![44u8, 34u8, 109u8, 111u8, 100u8, 105u8, 102u8, 105u8, 99u8, 97u8, 116u8, 105u8, 111u8, 110u8, 84u8, 105u8, 109u8, 101u8, 115u8, 116u8, 97u8, 109u8, 112u8, 34u8, 58u8],
{
    let mut r: Vec<u8> = Vec::new();
    r.push(44);
    r.push(34);
    r.push(109);
    r.push(111);
    r.push(100);
    r.push(105);
    r.push(102);
    r.push(105);
    r.push(99);
    r.push(97);
    r.push(116);
    r.push(105);
    r.push(111);
    r.push(110);
    r.push(84);
    r.push(105);
    r.push(109);
    r.push(101);
    r.push(115);
    r.push(116);
    r.push(97);
    r.push(109);
    r.push(112);
    r.push(34);
    r.push(58);
    assert(r@ =~= seq![44u8, 34u8, 109u8, 111u8, 100u8, 105u8, 102u8, 105u8, 99u8, 97u8, 116u8, 105u8, 111u8, 110u8, 84u8, 105u8, 109u8, 101u8, 115u8, 116u8, 97u8, 109u8, 112u8, 34u8, 58u8]);
    r
}

fn lit_size() -> (r: Vec<u8>)
    ensures
        r@ == seq![44u8, 34u8, 115u8, 105u8, 122u8, 101u8, 73u8, 110u8, 66u8, 121u8, 116u8, 101u8, 115u8, 34u8, 58u8],
{
    let mut r: Vec<u8> = Vec::new();
    r.push(44);
    r.push(34);
    r.push(115);
    r.push(105);
    r.push(122);
    r.push(101);
    r.push(73);
    r.push(110);
    r.push(66);
    r.push(121);
    r.push(116);
    r.push(101);
    r.push(115);
    r.push(34);
    r.push(58);
    assert(r@ =~= seq![44u8, 34u8, 115u8, 105u8, 122u8, 101u8, 73u8, 110u8, 66u8, 121u8, 116u8, 101u8, 115u8, 34u8, 58u8]);
    r
}

/// Serialize one entry.
pub fn file_infos_to_json(e: &FileInfos) -> (r: Vec<u8>)
    ensures
        r@ == file_infos_json(e@),
{
    let mut r: Vec<u8> = lit_name_open();
    let ghost g1 = seq![123u8, 34u8, 110u8, 97u8, 109u8, 101u8, 34u8, 58u8, 34u8];
    let esc = json_escape(e.name.as_str());
    vec_push_all(&mut r, &esc);
    let ghost g2 = g1 + json_escape_bytes(encode_utf8(e@.name));
    let l2 = lit_file_type();
    vec_push_all(&mut r, &l2);
    let ghost g3 = g2 + seq![34u8, 44u8, 34u8, 102u8, 105u8, 108u8, 101u8, 84u8, 121u8, 112u8, 101u8, 34u8, 58u8, 34u8];
    let ft = match e.file_type {
        FileType::File => {
            let mut v: Vec<u8> = Vec::new();
            v.push(102);
            v.push(105);
            v.push(108);
            v.push(101);
            assert(v@ =~= file_type_json(e@.file_type));
            v
        },
        FileType::Folder => {
            let mut v: Vec<u8> = Vec::new();
            v.push(100);
            v.push(105);
            v.push(114);
            assert(v@ =~= file_type_json(e@.file_type));
            v
        },
    };
    vec_push_all(&mut r, &ft);
    let ghost g4 = g3 + file_type_json(e@.file_type);
    let l3 = lit_creation();
    vec_push_all(&mut r, &l3);
    let ghost g5 = g4 + seq![34u8, 44u8, 34u8, 99u8, 114u8, 101u8, 97u8, 116u8, 105u8, 111u8, 110u8, 84u8, 105u8, 109u8, 101u8, 115u8, 116u8, 97u8, 109u8, 112u8, 34u8, 58u8];
    let d1 = u64_to_dec(e.creation_timestamp);
    vec_push_all(&mut r, &d1);
    let ghost g6 = g5 + dec_bytes_of(e.creation_timestamp as int);
    let l4 = lit_modification();
    vec_push_all(&mut r, &l4);
    let ghost g7 = g6 + seq![44u8, 34u8, 109u8, 111u8, 100u8, 105u8, 102u8, 105u8, 99u8, 97u8, 116u8, 105u8, 111u8, 110u8, 84u8, 105u8, 109u8, 101u8, 115u8, 116u8, 97u8, 109u8, 112u8, 34u8, 58u8];
    let d2 = u64_to_dec(e.modification_timestamp);
    vec_push_all(&mut r, &d2);
    let ghost g8 = g7 + dec_bytes_of(e.modification_timestamp as int);
    let l5 = lit_size();
    vec_push_all(&mut r, &l5);
    let ghost g9 = g8 + seq![44u8, 34u8, 115u8, 105u8, 122u8, 101u8, 73u8, 110u8, 66u8, 121u8, 116u8, 101u8, 115u8, 34u8, 58u8];
    let d3 = u64_to_dec(e.size_in_bytes);
    vec_push_all(&mut r, &d3);
    r.push(125);
    assert(r@ =~= g9 + dec_bytes_of(e.size_in_bytes as int) + seq![125u8]);
    assert(r@ == file_infos_json(e@));
    r
}

/// Serialize a listing into the `ls`/`glob` success payload.
pub fn file_list_json(entries: &Vec<FileInfos>) -> (r: Vec<u8>)
    ensures
        r@ == file_list_json_of(entries@.map_values(|e: FileInfos| e@)),
{
    let mut items: Vec<u8> = Vec::new();
    let mut i: usize = 0;
    proof {
        assert(entries@.subrange(0, 0).map_values(|e: FileInfos| e@) =~= Seq::<
            FileInfosV,
        >::empty());
        assert(items@ =~= entries_json_items(
            entries@.subrange(0, 0).map_values(|e: FileInfos| e@),
        ));
    }
    while i < entries.len()
        invariant
            0 <= i <= entries@.len(),
            items@ == entries_json_items(entries@.subrange(0, i as int).map_values(|e: FileInfos| e@)),
        decreases entries@.len() - i,
    {
        if i > 0 {
            items.push(44);
        }
        let item = file_infos_to_json(&entries[i]);
        vec_push_all(&mut items, &item);
        proof {
            let prev = entries@.subrange(0, i as int).map_values(|e: FileInfos| e@);
            let cur = entries@.subrange(0, i + 1).map_values(|e: FileInfos| e@);
            assert(cur.drop_last() =~= prev);
            assert(cur.last() == entries@[i as int]@);
            assert(cur.len() == i + 1);
            if i == 0 {
                assert(items@ =~= entries_json_items(cur));
            } else {
                assert(items@ =~= entries_json_items(cur));
            }
        }
        i = i + 1;
    }
    proof {
        assert(entries@.subrange(0, entries@.len() as int) =~= entries@);
    }
    let mut r: Vec<u8> = Vec::new();
    // {"entries":[
    r.push(123);
    r.push(34);
    r.push(101);
    r.push(110);
    r.push(116);
    r.push(114);
    r.push(105);
    r.push(101);
    r.push(115);
    r.push(34);
    r.push(58);
    r.push(91);
    vec_push_all(&mut r, &items);
    // ]}
    r.push(93);
    r.push(125);
    assert(r@ =~= file_list_json_of(entries@.map_values(|e: FileInfos| e@)));
    r
}

} // verus!
