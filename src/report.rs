//! The lines that the `rooms` and `size` commands print.
use vstd::prelude::*;
use vstd::string::*;
use crate::accounting::{PartitionUsage, table_header, table_row, table_line, name_heading,
    elements_heading, bytes_heading, decimal};

verus! {

pub open spec fn rooms_prefix() -> Seq<char> {
    seq!['R', 'o', 'o', 'm', 's', ' ', 'f', 'o', 'r', ' ', 's', 'e', 'r', 'v', 'e', 'r', ':', ' ']
}

pub open spec fn size_prefix() -> Seq<char> {
    seq!['S', 'i', 'z', 'e', ' ', 'f', 'o', 'r', ' ', 's', 'e', 'r', 'v', 'e', 'r', ':', ' ']
}

/// The lines of the `rooms` command: a heading that names the server, then
/// one public room id per line.
pub fn rooms_listing(server_name: &str, public_rooms: &Vec<String>) -> (r: Vec<String>)
    ensures
        r@.len() == public_rooms@.len() + 1,
        r@[0]@ == rooms_prefix() + server_name@,
        forall|i: int| 0 <= i < public_rooms@.len() ==> #[trigger] r@[i + 1]@ == public_rooms@[i]@,
{
    proof { reveal_strlit("Rooms for server: "); }
    assert("Rooms for server: "@ =~= rooms_prefix());
    let mut heading = String::from_str("Rooms for server: ");
    heading.append(server_name);
    let mut out: Vec<String> = Vec::new();
    out.push(heading);
    let mut i: usize = 0;
    while i < public_rooms.len()
        invariant
            i <= public_rooms@.len(),
            out@.len() == i + 1,
            out@[0]@ == rooms_prefix() + server_name@,
            forall|k: int| 0 <= k < i ==> #[trigger] out@[k + 1]@ == public_rooms@[k]@,
        decreases public_rooms@.len() - i,
    {
        out.push(public_rooms[i].clone());
        i += 1;
    }
    out
}

/// The lines of the `size` command: a heading that names the server, the
/// column headings, then one row per partition, each column padded to `width`.
pub fn size_report(server_name: &str, partitions: &Vec<PartitionUsage>, width: usize) -> (r: Vec<String>)
    ensures
        r@.len() == partitions@.len() + 2,
        r@[0]@ == size_prefix() + server_name@,
        r@[1]@ == table_line(name_heading(), elements_heading(), bytes_heading(), width as nat),
        forall|i: int| 0 <= i < partitions@.len() ==> #[trigger] r@[i + 2]@ == table_line(
            partitions@[i].name@,
            decimal(partitions@[i].elements as nat),
            decimal(partitions@[i].bytes as nat),
            width as nat,
        ),
{
    proof { reveal_strlit("Size for server: "); }
    assert("Size for server: "@ =~= size_prefix());
    let mut heading = String::from_str("Size for server: ");
    heading.append(server_name);
    let mut out: Vec<String> = Vec::new();
    out.push(heading);
    out.push(table_header(width));
    let mut i: usize = 0;
    while i < partitions.len()
        invariant
            i <= partitions@.len(),
            out@.len() == i + 2,
            out@[0]@ == size_prefix() + server_name@,
            out@[1]@ == table_line(name_heading(), elements_heading(), bytes_heading(), width as nat),
            forall|k: int| 0 <= k < i ==> #[trigger] out@[k + 2]@ == table_line(
                partitions@[k].name@,
                decimal(partitions@[k].elements as nat),
                decimal(partitions@[k].bytes as nat),
                width as nat,
            ),
        decreases partitions@.len() - i,
    {
        out.push(table_row(&partitions[i], width));
        i += 1;
    }
    out
}

} // verus!
