//! How pieces lie over files.
use crate::torrent::{FilePriority, MetaFile, PieceProgress, Torrent, TorrentFile, TorrentMeta};
use vstd::prelude::*;

verus! {

/// The first byte of a file, counted from the first byte of the torrent.
pub open spec fn file_start(files: Seq<MetaFile>, file: nat) -> nat
    decreases file,
{
    if file == 0 {
        0
    } else {
        file_start(files, (file - 1) as nat) + files[file - 1].length as nat
    }
}

/// How much of a file lies before a byte of the torrent.
pub open spec fn file_bytes_before(files: Seq<MetaFile>, file: nat, offset: nat) -> nat {
    let start = file_start(files, file);
    let length = files[file as int].length as nat;
    if offset <= start {
        0
    } else if offset - start <= length {
        (offset - start) as nat
    } else {
        length
    }
}

/// Where a piece begins; the piece past the last begins where the torrent ends.
pub open spec fn piece_start(meta: TorrentMeta, piece: nat) -> nat {
    if piece * meta.piece_length <= meta.total_length {
        piece * meta.piece_length as nat
    } else {
        meta.total_length as nat
    }
}

/// How much of a file lies in a piece.
pub open spec fn piece_file_bytes(meta: TorrentMeta, piece: nat, file: nat) -> nat {
    (file_bytes_before(meta.files@, file, piece_start(meta, piece + 1)) - file_bytes_before(
        meta.files@,
        file,
        piece_start(meta, piece),
    )) as nat
}

/// How much of a file lies in those of the first pieces that are there.
pub open spec fn file_bytes_there(
    meta: TorrentMeta,
    have: Seq<bool>,
    file: nat,
    pieces: nat,
) -> nat
    decreases pieces,
{
    if pieces == 0 {
        0
    } else {
        let last = (pieces - 1) as nat;
        file_bytes_there(meta, have, file, last) + if last < have.len() && have[last as int] {
            piece_file_bytes(meta, last, file)
        } else {
            0
        }
    }
}

proof fn lemma_file_start_bound(files: Seq<MetaFile>, file: nat)
    requires
        file <= files.len(),
    ensures
        file_start(files, file) <= file * u64::MAX as nat,
    decreases file,
{
    if file > 0 {
        lemma_file_start_bound(files, (file - 1) as nat);
        assert(file * u64::MAX as nat == (file - 1) * u64::MAX as nat + u64::MAX as nat)
            by (nonlinear_arith)
            requires
                file > 0,
        ;
    }
}

proof fn lemma_piece_start_grows(meta: TorrentMeta, piece: nat)
    ensures
        piece_start(meta, piece) <= piece_start(meta, piece + 1) <= meta.total_length,
{
    assert(piece * meta.piece_length <= (piece + 1) * meta.piece_length) by (nonlinear_arith);
}

proof fn lemma_bytes_before_grows(files: Seq<MetaFile>, file: nat, a: nat, b: nat)
    requires
        a <= b,
    ensures
        file_bytes_before(files, file, a) <= file_bytes_before(files, file, b)
            <= files[file as int].length,
{
}

/// The pieces that are there hold no more of a file than lies before the next piece.
pub proof fn lemma_there_bound(meta: TorrentMeta, have: Seq<bool>, file: nat, pieces: nat)
    ensures
        file_bytes_there(meta, have, file, pieces) <= file_bytes_before(
            meta.files@,
            file,
            piece_start(meta, pieces),
        ),
        file_bytes_there(meta, have, file, pieces) <= meta.files@[file as int].length,
    decreases pieces,
{
    lemma_bytes_before_grows(meta.files@, file, 0, piece_start(meta, pieces));
    if pieces > 0 {
        let last = (pieces - 1) as nat;
        lemma_there_bound(meta, have, file, last);
        lemma_piece_start_grows(meta, last);
        lemma_bytes_before_grows(
            meta.files@,
            file,
            piece_start(meta, last),
            piece_start(meta, pieces),
        );
    }
}

/// A file of which every piece is there is there in full.
pub proof fn complete_pieces_complete_files(
    meta: TorrentMeta,
    have: Seq<bool>,
    file: nat,
    pieces: nat,
)
    requires
        pieces <= have.len(),
        forall|piece: int| 0 <= piece < pieces ==> #[trigger] have[piece],
    ensures
        file_bytes_there(meta, have, file, pieces) == file_bytes_before(
            meta.files@,
            file,
            piece_start(meta, pieces),
        ),
    decreases pieces,
{
    if pieces > 0 {
        let last = (pieces - 1) as nat;
        complete_pieces_complete_files(meta, have, file, last);
        lemma_piece_start_grows(meta, last);
        lemma_bytes_before_grows(
            meta.files@,
            file,
            piece_start(meta, last),
            piece_start(meta, pieces),
        );
        assert(have[last as int]);
    } else {
        assert(piece_start(meta, 0) == 0) by {
            assert(0 * meta.piece_length == 0) by (nonlinear_arith);
        }
    }
}

fn start_of_piece(meta: &TorrentMeta, piece: u128) -> (start: u128)
    requires
        piece <= 0x1_0000_0000_0000_0000,
    ensures
        start == piece_start(*meta, piece as nat),
{
    assert(piece * meta.piece_length <= 0x1_0000_0000_0000_0000 * u64::MAX) by (nonlinear_arith)
        requires
            piece <= 0x1_0000_0000_0000_0000,
            meta.piece_length <= u64::MAX,
    ;
    let start: u128 = piece * (meta.piece_length as u128);
    if start <= meta.total_length as u128 {
        start
    } else {
        meta.total_length as u128
    }
}

fn bytes_before(length: u64, start: u128, offset: u128, Ghost(files): Ghost<Seq<MetaFile>>, Ghost(
    file,
): Ghost<nat>) -> (bytes: u64)
    requires
        start == file_start(files, file),
        length == files[file as int].length,
    ensures
        bytes == file_bytes_before(files, file, offset as nat),
{
    if offset <= start {
        0
    } else if offset - start <= length as u128 {
        (offset - start) as u64
    } else {
        length
    }
}

/// How much of a file lies in the pieces that are there.
fn count_file_bytes(
    meta: &TorrentMeta,
    have: &Vec<bool>,
    file: usize,
    start: u128,
) -> (bytes: u64)
    requires
        file < meta.files@.len(),
        start == file_start(meta.files@, file as nat),
    ensures
        bytes == file_bytes_there(*meta, have@, file as nat, have@.len()),
{
    let length: u64 = meta.files[file].length;
    let mut bytes: u64 = 0;
    let mut piece: usize = 0;
    while piece < have.len()
        invariant
            piece <= have.len(),
            file < meta.files@.len(),
            length == meta.files@[file as int].length,
            start == file_start(meta.files@, file as nat),
            bytes == file_bytes_there(*meta, have@, file as nat, piece as nat),
        decreases have.len() - piece,
    {
        if have[piece] {
            let from: u128 = start_of_piece(meta, piece as u128);
            let upto: u128 = start_of_piece(meta, piece as u128 + 1);
            let low: u64 = bytes_before(
                length,
                start,
                from,
                Ghost(meta.files@),
                Ghost(file as nat),
            );
            let high: u64 = bytes_before(
                length,
                start,
                upto,
                Ghost(meta.files@),
                Ghost(file as nat),
            );
            proof {
                lemma_piece_start_grows(*meta, piece as nat);
                lemma_bytes_before_grows(meta.files@, file as nat, from as nat, upto as nat);
                lemma_there_bound(*meta, have@, file as nat, piece as nat + 1);
            }
            bytes = bytes + (high - low);
        }
        piece = piece + 1;
    }
    bytes
}

/// A file with its byte count brought up to date.
pub open spec fn recounted(
    file: TorrentFile,
    index: nat,
    meta: TorrentMeta,
    have: Seq<bool>,
) -> TorrentFile {
    if index < meta.files@.len() {
        TorrentFile { bytes_completed: file_bytes_there(meta, have, index, have.len()) as u64, ..file }
    } else {
        file
    }
}

/// Brings the byte counts of a torrent's files up to date with its pieces.
pub fn recompute_file_bytes_completed(
    files: &mut Vec<TorrentFile>,
    meta: &TorrentMeta,
    progress: &PieceProgress,
)
    ensures
        final(files)@.len() == old(files)@.len(),
        forall|i: int|
            0 <= i < old(files)@.len() ==> #[trigger] final(files)@[i] == recounted(
                old(files)@[i],
                i as nat,
                *meta,
                progress.have@,
            ),
{
    let mut start: u128 = 0;
    let mut i: usize = 0;
    while i < files.len() && i < meta.files.len()
        invariant
            i <= files@.len(),
            i <= meta.files@.len(),
            start == file_start(meta.files@, i as nat),
            files@.len() == old(files)@.len(),
            forall|k: int|
                0 <= k < i ==> #[trigger] files@[k] == recounted(
                    old(files)@[k],
                    k as nat,
                    *meta,
                    progress.have@,
                ),
            forall|k: int| i <= k < files@.len() ==> #[trigger] files@[k] == old(files)@[k],
        decreases files@.len() - i,
    {
        let bytes: u64 = count_file_bytes(meta, &progress.have, i, start);
        proof {
            lemma_there_bound(*meta, progress.have@, i as nat, progress.have@.len());
            lemma_file_start_bound(meta.files@, i as nat);
            assert(i * u64::MAX as nat + u64::MAX as nat <= u128::MAX) by (nonlinear_arith)
                requires
                    i <= u64::MAX,
            ;
        }
        start = start + meta.files[i].length as u128;
        let file: &mut TorrentFile = &mut files[i];
        file.bytes_completed = bytes;
        i = i + 1;
    }
}

/// The file is wanted.
pub open spec fn file_selected(torrent: Torrent, file: int) -> bool {
    &&& (file < torrent.wanted@.len() ==> torrent.wanted@[file])
    &&& (file < torrent.priorities@.len() ==> torrent.priorities@[file] != FilePriority::Unwanted)
}

/// Some wanted file has bytes in the piece.
pub open spec fn piece_selected(torrent: Torrent, piece: nat) -> bool {
    exists|file: int|
        #![trigger file_selected(torrent, file)]
        0 <= file < torrent.meta.files@.len() && file_selected(torrent, file) && piece_file_bytes(
            torrent.meta,
            piece,
            file as nat,
        ) > 0
}

/// Every piece with bytes of a wanted file is there.
pub open spec fn selection_complete(torrent: Torrent, have: Seq<bool>) -> bool {
    forall|piece: nat|
        piece < torrent.meta.piece_count && #[trigger] piece_selected(torrent, piece) ==> piece
            < have.len() && have[piece as int]
}

fn is_piece_selected(torrent: &Torrent, piece: usize) -> (selected: bool)
    ensures
        selected == piece_selected(*torrent, piece as nat),
{
    let from: u128 = start_of_piece(&torrent.meta, piece as u128);
    let upto: u128 = start_of_piece(&torrent.meta, piece as u128 + 1);
    let mut start: u128 = 0;
    let mut file: usize = 0;
    while file < torrent.meta.files.len()
        invariant
            file <= torrent.meta.files@.len(),
            from == piece_start(torrent.meta, piece as nat),
            upto == piece_start(torrent.meta, piece as nat + 1),
            start == file_start(torrent.meta.files@, file as nat),
            forall|k: int|
                #![trigger file_selected(*torrent, k)]
                0 <= k < file ==> !(file_selected(*torrent, k) && piece_file_bytes(
                    torrent.meta,
                    piece as nat,
                    k as nat,
                ) > 0),
        decreases torrent.meta.files@.len() - file,
    {
        let length: u64 = torrent.meta.files[file].length;
        let wanted: bool = file >= torrent.wanted.len() || torrent.wanted[file];
        let ranked: bool = file >= torrent.priorities.len() || torrent.priorities[file]
            != FilePriority::Unwanted;
        let low: u64 = bytes_before(
            length,
            start,
            from,
            Ghost(torrent.meta.files@),
            Ghost(file as nat),
        );
        let high: u64 = bytes_before(
            length,
            start,
            upto,
            Ghost(torrent.meta.files@),
            Ghost(file as nat),
        );
        proof {
            lemma_piece_start_grows(torrent.meta, piece as nat);
            lemma_bytes_before_grows(
                torrent.meta.files@,
                file as nat,
                from as nat,
                upto as nat,
            );
            lemma_file_start_bound(torrent.meta.files@, file as nat);
            assert(file * u64::MAX as nat + u64::MAX as nat <= u128::MAX) by (nonlinear_arith)
                requires
                    file <= u64::MAX,
            ;
        }
        if wanted && ranked && high > low {
            assert(file_selected(*torrent, file as int));
            return true;
        }
        start = start + length as u128;
        file = file + 1;
    }
    false
}

/// Whether every piece with bytes of a wanted file is there.
pub fn torrent_selection_complete(torrent: &Torrent, have: &Vec<bool>) -> (complete: bool)
    ensures
        complete == selection_complete(*torrent, have@),
{
    let mut piece: usize = 0;
    while piece < torrent.meta.piece_count
        invariant
            piece <= torrent.meta.piece_count,
            forall|k: nat|
                k < piece && #[trigger] piece_selected(*torrent, k) ==> k < have@.len()
                    && have@[k as int],
        decreases torrent.meta.piece_count - piece,
    {
        let there: bool = piece < have.len() && have[piece];
        if !there && is_piece_selected(torrent, piece) {
            assert(piece_selected(*torrent, piece as nat));
            return false;
        }
        piece = piece + 1;
    }
    true
}

/// A torrent with all its pieces has every wanted piece.
pub proof fn complete_torrent_completes_selection(torrent: Torrent, have: Seq<bool>)
    requires
        torrent.meta.piece_count <= have.len(),
        forall|piece: int| 0 <= piece < have.len() ==> #[trigger] have[piece],
    ensures
        selection_complete(torrent, have),
{
}

/// Files lie one after the other, from the first byte on.
pub proof fn files_lie_one_after_the_other(files: Seq<MetaFile>, file: nat)
    requires
        file < files.len(),
    ensures
        file_start(files, 0) == 0,
        file_start(files, file + 1) == file_start(files, file) + files[file as int].length,
{
}

/// What a piece holds of a file is the part that both cover: pieces are cut one after the other,
/// all of one length but for the last, which ends with the torrent.
pub proof fn pieces_hold_what_they_cover(meta: TorrentMeta, piece: nat, file: nat)
    ensures
        ({
            let first = file_start(meta.files@, file);
            let end = first + meta.files@[file as int].length;
            let total = meta.total_length as int;
            let from = if piece * meta.piece_length <= total {
                piece * meta.piece_length
            } else {
                total
            };
            let upto = if (piece + 1) * meta.piece_length <= total {
                (piece + 1) * meta.piece_length
            } else {
                total
            };
            let low = if first >= from {
                first as int
            } else {
                from
            };
            let high = if end <= upto {
                end as int
            } else {
                upto
            };
            piece_file_bytes(meta, piece, file) == if high > low {
                high - low
            } else {
                0
            }
        }),
{
    lemma_piece_start_grows(meta, piece);
}

/// A selection is complete exactly where every piece that holds a byte of a wanted file is there; a
/// file is wanted unless it was unmarked or ranked as unwanted. Pieces that hold none do not count.
pub proof fn only_wanted_files_count(torrent: Torrent, have: Seq<bool>)
    ensures
        selection_complete(torrent, have) == (forall|piece: nat, file: nat|
            piece < torrent.meta.piece_count && file < torrent.meta.files@.len() && (file
                < torrent.wanted@.len() ==> torrent.wanted@[file as int]) && (file
                < torrent.priorities@.len() ==> torrent.priorities@[file as int]
                != FilePriority::Unwanted) && #[trigger] piece_file_bytes(
                torrent.meta,
                piece,
                file,
            ) > 0 ==> piece < have.len() && have[piece as int]),
{
    if selection_complete(torrent, have) {
        assert forall|piece: nat, file: nat|
            piece < torrent.meta.piece_count && file < torrent.meta.files@.len() && (file
                < torrent.wanted@.len() ==> torrent.wanted@[file as int]) && (file
                < torrent.priorities@.len() ==> torrent.priorities@[file as int]
                != FilePriority::Unwanted) && #[trigger] piece_file_bytes(
                torrent.meta,
                piece,
                file,
            ) > 0 implies piece < have.len() && have[piece as int] by {
            assert(file_selected(torrent, file as int));
            assert(piece_selected(torrent, piece));
        }
    }
    if forall|piece: nat, file: nat|
        piece < torrent.meta.piece_count && file < torrent.meta.files@.len() && (file
            < torrent.wanted@.len() ==> torrent.wanted@[file as int]) && (file
            < torrent.priorities@.len() ==> torrent.priorities@[file as int]
            != FilePriority::Unwanted) && #[trigger] piece_file_bytes(torrent.meta, piece, file)
            > 0 ==> piece < have.len() && have[piece as int] {
        assert forall|piece: nat|
            piece < torrent.meta.piece_count && #[trigger] piece_selected(
                torrent,
                piece,
            ) implies piece < have.len() && have[piece as int] by {
            let file = choose|file: int|
                #![trigger file_selected(torrent, file)]
                0 <= file < torrent.meta.files@.len() && file_selected(torrent, file)
                    && piece_file_bytes(torrent.meta, piece, file as nat) > 0;
            assert(piece_file_bytes(torrent.meta, piece, file as nat) > 0);
        }
    }
}

/// Every byte of a wanted file of a complete selection lies in a piece that is there.
pub proof fn complete_selections_hold_every_wanted_byte(
    torrent: Torrent,
    have: Seq<bool>,
    file: nat,
    offset: nat,
    piece: nat,
)
    requires
        selection_complete(torrent, have),
        file < torrent.meta.files@.len(),
        file < torrent.wanted@.len() ==> torrent.wanted@[file as int],
        file < torrent.priorities@.len() ==> torrent.priorities@[file as int]
            != FilePriority::Unwanted,
        offset < torrent.meta.files@[file as int].length,
        file_start(torrent.meta.files@, file) + offset < torrent.meta.total_length,
        piece < torrent.meta.piece_count,
        piece * torrent.meta.piece_length <= file_start(torrent.meta.files@, file) + offset < (piece
            + 1) * torrent.meta.piece_length,
    ensures
        piece < have.len() && have[piece as int],
{
    only_wanted_files_count(torrent, have);
    pieces_hold_what_they_cover(torrent.meta, piece, file);
    assert(piece_file_bytes(torrent.meta, piece, file) > 0);
}

/// Of a file nothing is there without a piece, no less with one more piece, and all of it with all
/// pieces of a torrent that holds it.
pub proof fn files_fill_up_with_pieces(
    meta: TorrentMeta,
    have: Seq<bool>,
    more: Seq<bool>,
    file: nat,
    pieces: nat,
)
    requires
        have.len() == more.len(),
        forall|i: int| 0 <= i < have.len() && #[trigger] have[i] ==> more[i],
        file < meta.files@.len(),
    ensures
        (forall|i: int| 0 <= i < have.len() ==> !(#[trigger] have[i])) ==> file_bytes_there(
            meta,
            have,
            file,
            pieces,
        ) == 0,
        file_bytes_there(meta, have, file, pieces) <= file_bytes_there(meta, more, file, pieces),
        file_bytes_there(meta, have, file, pieces) <= meta.files@[file as int].length,
        pieces <= have.len() && (forall|i: int| 0 <= i < have.len() ==> #[trigger] have[i])
            && pieces * meta.piece_length >= meta.total_length && file_start(meta.files@, file)
            + meta.files@[file as int].length <= meta.total_length ==> file_bytes_there(
            meta,
            have,
            file,
            pieces,
        ) == meta.files@[file as int].length,
    decreases pieces,
{
    lemma_there_bound(meta, have, file, pieces);
    if pieces <= have.len() && (forall|i: int| 0 <= i < have.len() ==> #[trigger] have[i]) {
        complete_pieces_complete_files(meta, have, file, pieces);
    }
    if pieces > 0 {
        let last = (pieces - 1) as nat;
        files_fill_up_with_pieces(meta, have, more, file, last);
    }
}

/// Counting a torrent's files anew gives each of them what is there of it, and changes nothing else
/// of a file.
pub proof fn recounting_changes_only_the_count(
    file: TorrentFile,
    index: nat,
    meta: TorrentMeta,
    have: Seq<bool>,
)
    ensures
        ({
            let after = recounted(file, index, meta, have);
            &&& after == (TorrentFile { bytes_completed: after.bytes_completed, ..file })
            &&& index >= meta.files@.len() ==> after == file
            &&& index < meta.files@.len() ==> after.bytes_completed == file_bytes_there(
                meta,
                have,
                index,
                have.len(),
            )
            &&& index < meta.files@.len() ==> after.bytes_completed
                <= meta.files@[index as int].length
        }),
{
    if index < meta.files@.len() {
        lemma_there_bound(meta, have, index, have.len());
    }
}

} // verus!
