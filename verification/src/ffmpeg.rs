//! What FFmpeg is asked to do: the argument lists of the encoder and of the
//! frame filter, the size of a raw frame, and the pool of running filters.
//!
//! FFmpeg runs as a child process. Spawning it, feeding it and reading it
//! back are the host's; which arguments it gets, how many bytes a frame is,
//! and which running filter serves which chain are decided here.

use vstd::prelude::*;

use crate::export::EncodeOptions;
use crate::scan::{decimal, push_decimal};
use crate::text::string_from_chars;

verus! {

/// How `Display` writes a signed number.
pub open spec fn signed_decimal(value: int) -> Seq<char> {
    if value < 0 {
        seq!['-'] + decimal((-value) as nat)
    } else {
        decimal(value as nat)
    }
}

/// A frame size as FFmpeg's `-s` takes it: `WIDTHxHEIGHT`.
pub open spec fn size_text(width: u32, height: u32) -> Seq<char> {
    decimal(width as nat) + seq!['x'] + decimal(height as nat)
}

/// A frame rate as an exact fraction: `NUM/DEN`.
pub open spec fn rate_text(numerator: i64, denominator: i64) -> Seq<char> {
    signed_decimal(numerator as int) + seq!['/'] + signed_decimal(denominator as int)
}

/// The text of each argument.
pub open spec fn texts(arguments: Seq<String>) -> Seq<Seq<char>> {
    arguments.map_values(|argument: String| argument@)
}

/// What the encoder is started with: raw RGBA frames of this size at this
/// exact rate down the pipe (`pipe:0`, which even a trimmed FFmpeg build
/// has), the picture filter when there is one, the codec, preset, quality
/// and pixel format asked for, the index at the front of the file so a
/// player can start before it has the end, and the output, overwritten.
pub open spec fn encoder_argument_texts(
    width: u32,
    height: u32,
    rate_numerator: i64,
    rate_denominator: i64,
    options: EncodeOptions,
    output: Seq<char>,
) -> Seq<Seq<char>> {
    seq![
        "-y"@,
        "-f"@,
        "rawvideo"@,
        "-pix_fmt"@,
        "rgba"@,
        "-s"@,
        size_text(width, height),
        "-r"@,
        rate_text(rate_numerator, rate_denominator),
        "-i"@,
        "pipe:0"@,
    ] + (if options.video_filter@.len() == 0 {
        Seq::empty()
    } else {
        seq!["-vf"@, options.video_filter@]
    }) + seq![
        "-c:v"@,
        options.codec@,
        "-preset"@,
        options.preset@,
        "-crf"@,
        decimal(options.crf as nat),
        "-pix_fmt"@,
        options.pixel_format@,
        "-movflags"@,
        "+faststart"@,
        output,
    ]
}

/// What a frame filter is started with: raw RGBA frames of this size in,
/// the chain, raw RGBA frames out, each flushed as soon as it is made so
/// the reader never waits on a frame FFmpeg is holding back.
pub open spec fn filter_argument_texts(width: u32, height: u32, chain: Seq<char>) -> Seq<Seq<char>> {
    seq![
        "-f"@,
        "rawvideo"@,
        "-pix_fmt"@,
        "rgba"@,
        "-s"@,
        size_text(width, height),
        "-i"@,
        "pipe:0"@,
        "-vf"@,
        chain,
        "-f"@,
        "rawvideo"@,
        "-pix_fmt"@,
        "rgba"@,
        "-flush_packets"@,
        "1"@,
        "pipe:1"@,
    ]
}

fn push_signed(out: &mut Vec<char>, value: i64)
    ensures
        final(out)@ == old(out)@ + signed_decimal(value as int),
{
    if value < 0 {
        out.push('-');
        let magnitude: u64 = (-(value as i128)) as u64;
        push_decimal(out, magnitude);
        assert(out@ =~= old(out)@ + signed_decimal(value as int));
    } else {
        push_decimal(out, value as u64);
    }
}

fn size_argument(width: u32, height: u32) -> (argument: String)
    ensures
        argument@ == size_text(width, height),
{
    let mut out: Vec<char> = Vec::new();
    push_decimal(&mut out, width as u64);
    out.push('x');
    push_decimal(&mut out, height as u64);
    assert(out@ =~= size_text(width, height));
    string_from_chars(&out)
}

fn rate_argument(numerator: i64, denominator: i64) -> (argument: String)
    ensures
        argument@ == rate_text(numerator, denominator),
{
    let mut out: Vec<char> = Vec::new();
    push_signed(&mut out, numerator);
    out.push('/');
    push_signed(&mut out, denominator);
    assert(out@ =~= rate_text(numerator, denominator));
    string_from_chars(&out)
}

fn text(literal: &str) -> (argument: String)
    ensures
        argument@ == literal@,
{
    String::from_str(literal)
}

/// The encoder's arguments; see `encoder_argument_texts`.
pub fn encoder_arguments(
    width: u32,
    height: u32,
    rate_numerator: i64,
    rate_denominator: i64,
    options: &EncodeOptions,
    output: &str,
) -> (arguments: Vec<String>)
    ensures
        texts(arguments@) == encoder_argument_texts(
            width,
            height,
            rate_numerator,
            rate_denominator,
            *options,
            output@,
        ),
{
    let mut arguments: Vec<String> = vec![
        text("-y"),
        text("-f"),
        text("rawvideo"),
        text("-pix_fmt"),
        text("rgba"),
        text("-s"),
        size_argument(width, height),
        text("-r"),
        rate_argument(rate_numerator, rate_denominator),
        text("-i"),
        text("pipe:0"),
    ];
    let ghost head = arguments@;
    let mut filter: Vec<String> = if options.video_filter.as_str().is_empty() {
        Vec::new()
    } else {
        vec![text("-vf"), options.video_filter.clone()]
    };
    let ghost middle = filter@;
    let mut crf: Vec<char> = Vec::new();
    push_decimal(&mut crf, options.crf as u64);
    assert(crf@ =~= decimal(options.crf as nat));
    let mut tail: Vec<String> = vec![
        text("-c:v"),
        options.codec.clone(),
        text("-preset"),
        options.preset.clone(),
        text("-crf"),
        string_from_chars(&crf),
        text("-pix_fmt"),
        options.pixel_format.clone(),
        text("-movflags"),
        text("+faststart"),
        text(output),
    ];
    let ghost end = tail@;
    arguments.append(&mut filter);
    arguments.append(&mut tail);
    proof {
        assert(arguments@ =~= head + middle + end);
        assert(texts(arguments@) =~= encoder_argument_texts(
            width,
            height,
            rate_numerator,
            rate_denominator,
            *options,
            output@,
        ));
    }
    arguments
}

/// The frame filter's arguments; see `filter_argument_texts`.
pub fn filter_arguments(width: u32, height: u32, chain: &str) -> (arguments: Vec<String>)
    ensures
        texts(arguments@) == filter_argument_texts(width, height, chain@),
{
    let arguments: Vec<String> = vec![
        text("-f"),
        text("rawvideo"),
        text("-pix_fmt"),
        text("rgba"),
        text("-s"),
        size_argument(width, height),
        text("-i"),
        text("pipe:0"),
        text("-vf"),
        text(chain),
        text("-f"),
        text("rawvideo"),
        text("-pix_fmt"),
        text("rgba"),
        text("-flush_packets"),
        text("1"),
        text("pipe:1"),
    ];
    assert(texts(arguments@) =~= filter_argument_texts(width, height, chain@));
    arguments
}

/// How many bytes one raw RGBA frame of this size is: four per pixel.
pub fn frame_bytes(width: u32, height: u32) -> (bytes: usize)
    requires
        width * height * 4 <= usize::MAX,
    ensures
        bytes == width * height * 4,
{
    assert(width * height <= width * height * 4) by (nonlinear_arith);
    (width as usize) * (height as usize) * 4
}


/// Running filters, kept by the chain they run and the frame size they run
/// it at. A monitor scrubbing back and forth asks for the same chain again
/// and again; keeping the process is the whole point. No key is held twice.
pub struct FilterPool<F> {
    running: Vec<(String, u32, u32, F)>,
}

/// A filter's key as text and numbers.
pub open spec fn key_of<F>(entry: (String, u32, u32, F)) -> (Seq<char>, u32, u32) {
    (entry.0@, entry.1, entry.2)
}

/// Whether a chain is one of those the edit still uses.
pub open spec fn wanted(keep: Seq<String>, chain: Seq<char>) -> bool {
    exists|j: int| 0 <= j < keep.len() && #[trigger] keep[j]@ == chain
}

impl<F> FilterPool<F> {
    /// The running filters with their keys, oldest first.
    pub closed spec fn entries(&self) -> Seq<(String, u32, u32, F)> {
        self.running@
    }

    /// Whether no key is held twice.
    pub open spec fn well_formed(&self) -> bool {
        forall|a: int, b: int|
            0 <= a < b < self.entries().len() ==> key_of(#[trigger] self.entries()[a]) != key_of(
                #[trigger] self.entries()[b],
            )
    }

    /// Whether a filter runs for this key.
    pub open spec fn holds(&self, key: (Seq<char>, u32, u32)) -> bool {
        exists|i: int| 0 <= i < self.entries().len() && key_of(#[trigger] self.entries()[i]) == key
    }

    /// An empty pool.
    pub fn new() -> (pool: Self)
        ensures
            pool.entries().len() == 0,
            pool.well_formed(),
    {
        FilterPool { running: Vec::new() }
    }

    /// How many filters are running.
    pub fn len(&self) -> (count: usize)
        ensures
            count == self.entries().len(),
    {
        self.running.len()
    }

    /// Where the filter for this chain and size is, if one runs.
    pub fn position(&self, chain: &str, width: u32, height: u32) -> (found: Option<usize>)
        ensures
            match found {
                Some(index) => index < self.entries().len() && key_of(self.entries()[index as int])
                    == (chain@, width, height),
                None => !self.holds((chain@, width, height)),
            },
    {
        let wanted = chain.to_owned();
        let mut i: usize = 0;
        while i < self.running.len()
            invariant
                i <= self.running@.len(),
                wanted@ == chain@,
                forall|j: int|
                    0 <= j < i ==> key_of(#[trigger] self.running@[j]) != (chain@, width, height),
            decreases self.running@.len() - i,
        {
            let entry = &self.running[i];
            if entry.0 == wanted && entry.1 == width && entry.2 == height {
                return Some(i);
            }
            i += 1;
        }
        None
    }

    /// The filter for this chain and size, started with `open` when none
    /// runs yet. A failed start leaves the pool as it was.
    pub fn slot<E, O: FnOnce() -> Result<F, E>>(
        &mut self,
        chain: &str,
        width: u32,
        height: u32,
        open: O,
    ) -> (slot: Result<usize, E>)
        requires
            old(self).well_formed(),
            call_requires(open, ()),
        ensures
            final(self).well_formed(),
            old(self).holds((chain@, width, height)) ==> final(self).entries() == old(self).entries()
                && slot is Ok,
            slot matches Ok(index) ==> index < final(self).entries().len() && key_of(
                final(self).entries()[index as int],
            ) == (chain@, width, height),
            !old(self).holds((chain@, width, height)) ==> match slot {
                Ok(index) => {
                    &&& index == old(self).entries().len()
                    &&& final(self).entries().drop_last() == old(self).entries()
                    &&& call_ensures(open, (), Ok(final(self).entries()[index as int].3))
                },
                Err(error) => {
                    &&& final(self).entries() == old(self).entries()
                    &&& call_ensures(open, (), Err(error))
                },
            },
    {
        match self.position(chain, width, height) {
            Some(index) => Ok(index),
            None => match open() {
                Ok(filter) => {
                    let index = self.running.len();
                    let ghost before = self.running@;
                    self.running.push((chain.to_owned(), width, height, filter));
                    proof {
                        assert(self.running@.drop_last() =~= before);
                        assert forall|a: int, b: int|
                            0 <= a < b < self.entries().len() implies key_of(
                            #[trigger] self.entries()[a],
                        ) != key_of(#[trigger] self.entries()[b]) by {
                            if b == index {
                                assert(self.entries()[a] == before[a]);
                                assert(key_of(self.entries()[b]) == (chain@, width, height));
                                assert(!old(self).holds((chain@, width, height)));
                                assert(old(self).entries()[a] == before[a]);
                                assert(key_of(old(self).entries()[a]) != (chain@, width, height));
                            } else {
                                assert(self.entries()[a] == before[a]);
                                assert(self.entries()[b] == before[b]);
                                assert(old(self).entries()[a] == before[a]);
                                assert(old(self).entries()[b] == before[b]);
                            }
                        }
                    }
                    Ok(index)
                },
                Err(error) => Err(error),
            },
        }
    }

    /// The running filter at `index`, to feed and read back.
    pub fn filter_mut(&mut self, index: usize) -> (filter: &mut F)
        requires
            index < old(self).entries().len(),
        ensures
            *filter == old(self).entries()[index as int].3,
            final(self).entries() == old(self).entries().update(
                index as int,
                (
                    old(self).entries()[index as int].0,
                    old(self).entries()[index as int].1,
                    old(self).entries()[index as int].2,
                    *final(filter),
                ),
            ),
    {
        &mut self.running[index].3
    }

    /// Drops the filter at `index`, which has died: the next frame starts a
    /// fresh one rather than every later frame failing.
    pub fn remove(&mut self, index: usize)
        requires
            old(self).well_formed(),
            index < old(self).entries().len(),
        ensures
            final(self).well_formed(),
            final(self).entries() == old(self).entries().remove(index as int),
    {
        let ghost before = self.running@;
        let _dead = self.running.remove(index);
        proof {
            assert forall|a: int, b: int|
                0 <= a < b < self.entries().len() implies key_of(#[trigger] self.entries()[a])
                != key_of(#[trigger] self.entries()[b]) by {
                let ia = if a < index { a } else { a + 1 };
                let ib = if b < index { b } else { b + 1 };
                assert(self.entries()[a] == before[ia]);
                assert(self.entries()[b] == before[ib]);
            }
        }
    }

    /// Drops every filter whose chain is not in `keep`, so retuning an
    /// effect does not leave the old chain's process running.
    pub fn retain(&mut self, keep: &Vec<String>)
        requires
            old(self).well_formed(),
        ensures
            final(self).well_formed(),
            final(self).entries() == old(self).entries().filter(
                |entry: (String, u32, u32, F)| wanted(keep@, entry.0@),
            ),
    {
        let ghost kept = |entry: (String, u32, u32, F)| wanted(keep@, entry.0@);
        let ghost all = self.running@;
        assert(all.take(0).filter(kept) =~= Seq::<(String, u32, u32, F)>::empty()) by {
            reveal_with_fuel(Seq::<_>::filter, 1);
        }
        assert forall|a: int, b: int| 0 <= a < b < all.len() implies key_of(#[trigger] all[a])
            != key_of(#[trigger] all[b]) by {
            assert(all[a] == old(self).entries()[a] && all[b] == old(self).entries()[b]);
        }
        let mut running: Vec<(String, u32, u32, F)> = Vec::new();
        std::mem::swap(&mut running, &mut self.running);
        let mut out: Vec<(String, u32, u32, F)> = Vec::new();
        for entry in it: running.into_iter()
            invariant
                all == it.seq(),
                kept == (|entry: (String, u32, u32, F)| wanted(keep@, entry.0@)),
                out@ == all.take(it.index() as int).filter(kept),
                forall|a: int, b: int|
                    0 <= a < b < all.len() ==> key_of(#[trigger] all[a]) != key_of(#[trigger] all[b]),
        {
            let ghost i = it.index() as int;
            proof {
                reveal_with_fuel(Seq::<_>::filter, 1);
                assert(all.take(i + 1).drop_last() =~= all.take(i));
                assert(all.take(i + 1).last() == all[i]);
            }
            let mut keeps = false;
            let mut j: usize = 0;
            while j < keep.len() && !keeps
                invariant
                    j <= keep@.len(),
                    keeps ==> wanted(keep@, entry.0@),
                    !keeps ==> forall|k: int| 0 <= k < j ==> #[trigger] keep@[k]@ != entry.0@,
                decreases keep@.len() - j,
            {
                if keep[j] == entry.0 {
                    keeps = true;
                }
                j += 1;
            }
            if keeps {
                out.push(entry);
            }
        }
        proof {
            assert(all.take(all.len() as int) =~= all);
        }
        self.running = out;
        proof {
            lemma_filter_keeps_distinct(all, kept);
        }
    }
}

/// Keeping some entries of a pool with distinct keys keeps the keys distinct.
proof fn lemma_filter_keeps_distinct<F>(
    entries: Seq<(String, u32, u32, F)>,
    keep: spec_fn((String, u32, u32, F)) -> bool,
)
    requires
        forall|a: int, b: int|
            0 <= a < b < entries.len() ==> key_of(#[trigger] entries[a]) != key_of(#[trigger] entries[b]),
    ensures
        forall|a: int, b: int|
            0 <= a < b < entries.filter(keep).len() ==> key_of(#[trigger] entries.filter(keep)[a])
                != key_of(#[trigger] entries.filter(keep)[b]),
    decreases entries.len(),
{
    reveal_with_fuel(Seq::<_>::filter, 1);
    if entries.len() > 0 {
        let rest = entries.drop_last();
        assert forall|a: int, b: int| 0 <= a < b < rest.len() implies key_of(#[trigger] rest[a])
            != key_of(#[trigger] rest[b]) by {
            assert(rest[a] == entries[a] && rest[b] == entries[b]);
        }
        lemma_filter_keeps_distinct(rest, keep);
        let kept = rest.filter(keep);
        if keep(entries.last()) {
            let last = entries.last();
            assert forall|a: int| 0 <= a < kept.len() implies key_of(#[trigger] kept[a]) != key_of(last) by {
                rest.lemma_filter_contains_rev(keep, kept[a]);
                assert(kept.contains(kept[a]));
                let k = choose|k: int| 0 <= k < rest.len() && rest[k] == kept[a];
                assert(entries[k] == rest[k]);
                assert(entries[entries.len() - 1] == last);
            }
            let all_kept = entries.filter(keep);
            assert(all_kept == kept.push(last));
            assert forall|a: int, b: int| 0 <= a < b < all_kept.len() implies key_of(
                #[trigger] all_kept[a],
            ) != key_of(#[trigger] all_kept[b]) by {
                assert(all_kept[a] == kept[a]);
                if b < kept.len() {
                    assert(all_kept[b] == kept[b]);
                }
            }
        }
    }
}

} // verus!
