//! The columnar annotation store and its mathematical model.
//!
//! Text annotations are four parallel, index-aligned columns: start
//! frame, frame length, byte offset into a shared text blob, and the
//! blob itself. Image annotations mirror this with their own columns and
//! blob. The store is append-only: offsets already recorded are never
//! adjusted, and every append records the blob length from just before
//! its payload was pushed.

use vstd::prelude::*;

verus! {

/// The ghost model of a [`Notes`] store: every column as a sequence of
/// mathematical integers, and each blob as a byte sequence.
#[verifier::ext_equal]
pub ghost struct NotesModel {
    pub start_frames: Seq<int>,
    pub frame_lengths: Seq<int>,
    pub data_idx: Seq<int>,
    pub data: Seq<u8>,
    pub image_start_frames: Seq<int>,
    pub image_frame_lengths: Seq<int>,
    pub image_data_offsets: Seq<int>,
    pub image_compressed_data: Seq<u8>,
}

impl NotesModel {
    /// Well-formedness of the store: the text columns are index-aligned
    /// and every recorded offset lies within the blob it points into;
    /// likewise for the image columns. Appends preserve this shape.
    pub open spec fn wf(self) -> bool {
        &&& self.start_frames.len() == self.frame_lengths.len()
        &&& self.start_frames.len() == self.data_idx.len()
        &&& forall|i: int|
            0 <= i < self.data_idx.len() ==> 0 <= #[trigger] self.data_idx[i] <= self.data.len()
        &&& self.image_start_frames.len() == self.image_frame_lengths.len()
        &&& self.image_start_frames.len() == self.image_data_offsets.len()
        &&& forall|i: int|
            0 <= i < self.image_data_offsets.len() ==> 0 <= #[trigger] self.image_data_offsets[i]
                <= self.image_compressed_data.len()
    }

    /// A candidate frame collides when it equals the start or the end
    /// (start plus length) of some text annotation already in the store.
    pub open spec fn collides(self, f: int) -> bool {
        exists|i: int|
            0 <= i < self.start_frames.len() && (#[trigger] self.start_frames[i] == f
                || self.start_frames[i] + self.frame_lengths[i] == f)
    }

    /// The store after appending one text annotation: the three integer
    /// columns each grow by one entry, the new offset is the blob length
    /// from before the payload was pushed, and the payload goes onto the
    /// end of the blob. The image columns are untouched.
    pub open spec fn push_text(self, start: int, len: int, payload: Seq<u8>) -> NotesModel {
        NotesModel {
            start_frames: self.start_frames.push(start),
            frame_lengths: self.frame_lengths.push(len),
            data_idx: self.data_idx.push(self.data.len() as int),
            data: self.data + payload,
            ..self
        }
    }

    /// The store after appending one image annotation, mirroring
    /// [`NotesModel::push_text`] on the image columns.
    pub open spec fn push_image(self, start: int, len: int, payload: Seq<u8>) -> NotesModel {
        NotesModel {
            image_start_frames: self.image_start_frames.push(start),
            image_frame_lengths: self.image_frame_lengths.push(len),
            image_data_offsets: self.image_data_offsets.push(
                self.image_compressed_data.len() as int,
            ),
            image_compressed_data: self.image_compressed_data + payload,
            ..self
        }
    }
}

/// The executable columnar store. Field layout matches the container
/// format: parallel `i32` columns over shared byte blobs.
#[derive(Debug, Clone, PartialEq)]
pub struct Notes {
    pub start_frames: Vec<i32>,
    pub frame_lengths: Vec<i32>,
    pub data_idx: Vec<i32>,
    pub data: Vec<u8>,
    pub image_start_frames: Vec<i32>,
    pub image_frame_lengths: Vec<i32>,
    pub image_data_offsets: Vec<i32>,
    pub image_compressed_data: Vec<u8>,
}

impl View for Notes {
    type V = NotesModel;

    open spec fn view(&self) -> NotesModel {
        NotesModel {
            start_frames: self.start_frames@.map_values(|x: i32| x as int),
            frame_lengths: self.frame_lengths@.map_values(|x: i32| x as int),
            data_idx: self.data_idx@.map_values(|x: i32| x as int),
            data: self.data@,
            image_start_frames: self.image_start_frames@.map_values(|x: i32| x as int),
            image_frame_lengths: self.image_frame_lengths@.map_values(|x: i32| x as int),
            image_data_offsets: self.image_data_offsets@.map_values(|x: i32| x as int),
            image_compressed_data: self.image_compressed_data@,
        }
    }
}

/// One annotation payload handed to [`Notes::add`]: text for the text
/// columns, or compressed image bytes for the image columns.
pub enum Note<'a> {
    Text(&'a Vec<u8>),
    Image(&'a Vec<u8>),
}

/// The length an optional frame-length argument stands for: an absent
/// length means a point annotation of length zero.
pub open spec fn opt_len(len: Option<i32>) -> int {
    match len {
        Some(l) => l as int,
        None => 0,
    }
}

impl Notes {
    /// An empty store: all columns and both blobs empty.
    pub fn new() -> (r: Notes)
        ensures
            r@.start_frames.len() == 0,
            r@.frame_lengths.len() == 0,
            r@.data_idx.len() == 0,
            r@.data.len() == 0,
            r@.image_start_frames.len() == 0,
            r@.image_frame_lengths.len() == 0,
            r@.image_data_offsets.len() == 0,
            r@.image_compressed_data.len() == 0,
            r@.wf(),
    {
        Notes {
            start_frames: Vec::new(),
            frame_lengths: Vec::new(),
            data_idx: Vec::new(),
            data: Vec::new(),
            image_start_frames: Vec::new(),
            image_frame_lengths: Vec::new(),
            image_data_offsets: Vec::new(),
            image_compressed_data: Vec::new(),
        }
    }

    /// Appends one annotation to the columns its payload selects, as one
    /// atomic logical step: all the affected columns grow together.
    pub fn add(&mut self, start: i32, len: Option<i32>, note: Note<'_>)
        requires
            match note {
                Note::Text(_) => old(self).data@.len() <= i32::MAX,
                Note::Image(_) => old(self).image_compressed_data@.len() <= i32::MAX,
            },
        ensures
            match note {
                Note::Text(s) => final(self)@ == old(self)@.push_text(
                    start as int,
                    opt_len(len),
                    s@,
                ),
                Note::Image(b) => final(self)@ == old(self)@.push_image(
                    start as int,
                    opt_len(len),
                    b@,
                ),
            },
    {
        let length: i32 = match len {
            Some(l) => l,
            None => 0,
        };
        match note {
            Note::Text(s) => {
                let data_idx: i32 = self.data.len() as i32;
                push_bytes(&mut self.data, s);
                self.start_frames.push(start);
                self.frame_lengths.push(length);
                self.data_idx.push(data_idx);
                proof {
                    assert(self@ =~= old(self)@.push_text(start as int, opt_len(len), s@));
                }
            },
            Note::Image(b) => {
                let data_idx: i32 = self.image_compressed_data.len() as i32;
                push_bytes(&mut self.image_compressed_data, b);
                self.image_start_frames.push(start);
                self.image_frame_lengths.push(length);
                self.image_data_offsets.push(data_idx);
                proof {
                    assert(self@ =~= old(self)@.push_image(start as int, opt_len(len), b@));
                }
            },
        }
    }

    /// Appends a point annotation at one frame, with length zero.
    pub fn add_note(&mut self, frame: i32, note: Note<'_>)
        requires
            match note {
                Note::Text(_) => old(self).data@.len() <= i32::MAX,
                Note::Image(_) => old(self).image_compressed_data@.len() <= i32::MAX,
            },
        ensures
            match note {
                Note::Text(s) => final(self)@ == old(self)@.push_text(frame as int, 0, s@),
                Note::Image(b) => final(self)@ == old(self)@.push_image(frame as int, 0, b@),
            },
    {
        self.add(frame, None, note);
    }

    /// Appends an annotation covering the frame range `start..end`, so
    /// with length `end - start`.
    pub fn add_range(&mut self, start: i32, end: i32, note: Note<'_>)
        requires
            i32::MIN <= end - start <= i32::MAX,
            match note {
                Note::Text(_) => old(self).data@.len() <= i32::MAX,
                Note::Image(_) => old(self).image_compressed_data@.len() <= i32::MAX,
            },
        ensures
            match note {
                Note::Text(s) => final(self)@ == old(self)@.push_text(
                    start as int,
                    end - start,
                    s@,
                ),
                Note::Image(b) => final(self)@ == old(self)@.push_image(
                    start as int,
                    end - start,
                    b@,
                ),
            },
    {
        self.add(start, Some(end - start), note);
    }
}

/// Pushes every byte of `src`, in order, onto the end of `dst`.
fn push_bytes(dst: &mut Vec<u8>, src: &Vec<u8>)
    ensures
        final(dst)@ == old(dst)@ + src@,
{
    let n: usize = src.len();
    let mut i: usize = 0;
    while i < n
        invariant
            i <= n,
            n == src@.len(),
            dst@ == old(dst)@ + src@.subrange(0, i as int),
        decreases n - i,
    {
        dst.push(src[i]);
        proof {
            assert((old(dst)@ + src@.subrange(0, i as int)).push(src@[i as int]) =~= old(dst)@
                + src@.subrange(0, i + 1));
        }
        i = i + 1;
    }
    proof {
        assert(src@.subrange(0, n as int) =~= src@);
    }
}

} // verus!
