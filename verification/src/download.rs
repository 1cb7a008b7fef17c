//! The decisions of the video download: the file name a URL is saved under,
//! when a file on disk counts as already downloaded, and the progress
//! percentages reported while the bytes arrive.
use vstd::prelude::*;
use crate::text::{chars_of, rfind_char, string_of};

verus! {

/// The file name a video URL is saved under: what follows its last `/`
/// (all of it where there is none).
pub open spec fn spec_video_file_name(url: Seq<char>) -> Seq<char> {
    match rfind_char(url, '/') {
        Some(i) => url.skip(i + 1),
        None => url,
    }
}

/// The file name the video at `url` is saved under.
pub fn video_file_name(url: &str) -> (name: String)
    ensures
        name@ == spec_video_file_name(url@),
{
    let v = chars_of(url);
    let n = v.len();
    let mut i = n;
    assert(url@.take(n as int) =~= url@);
    while i > 0 && v[i - 1] != '/'
        invariant
            i <= n,
            n == v@.len(),
            v@ == url@,
            rfind_char(url@, '/') == rfind_char(url@.take(i as int), '/'),
        decreases i,
    {
        assert(url@.take(i as int).drop_last() =~= url@.take(i - 1));
        i = i - 1;
    }
    proof {
        if i > 0 {
            assert(url@.take(i as int).last() == '/');
            assert(rfind_char(url@.take(i as int), '/') == Some(i - 1));
            assert(url@.skip(i as int) =~= v@.subrange(i as int, n as int));
        } else {
            assert(url@.take(0) =~= Seq::<char>::empty());
            assert(url@ =~= v@.subrange(0, n as int));
        }
    }
    assert(url@.take(n as int) =~= url@);
    string_of(&v, i, n)
}

/// A file already on disk counts as the downloaded video when a size was
/// expected and the file is at least that large.
pub fn is_cache_hit(existing_len: Option<u64>, expected_size_hint: Option<u64>) -> (b: bool)
    ensures
        b == (existing_len is Some && expected_size_hint is Some && existing_len->0
            >= expected_size_hint->0),
{
    match (existing_len, expected_size_hint) {
        (Some(len), Some(expected)) => len >= expected,
        _ => false,
    }
}

/// The percentage of `total` bytes that `downloaded` bytes are, at most 100;
/// 0 where the total is unknown.
pub open spec fn spec_percent(downloaded: u64, total: u64) -> u8 {
    if total > 0 {
        let p = (downloaded * 100) / (total as int);
        if p < 100 {
            p as u8
        } else {
            100
        }
    } else {
        0
    }
}

/// The last percentage reported is the one the bytes so far make.
pub open spec fn progress_consistent(p: DownloadProgress) -> bool {
    p.last_pct == spec_percent(p.downloaded, p.total)
}

/// The progress of one download: the expected total (0 where unknown), the
/// bytes so far, and the last percentage reported.
pub struct DownloadProgress {
    pub total: u64,
    pub downloaded: u64,
    pub last_pct: u8,
}

impl DownloadProgress {
    /// A download whose response announced `content_length`; without it, the
    /// size hint is the total, and without that too the total is unknown.
    pub fn new(content_length: Option<u64>, expected_size_hint: Option<u64>) -> (p:
        DownloadProgress)
        ensures
            p.total == match content_length {
                Some(l) => l,
                None => match expected_size_hint {
                    Some(h) => h,
                    None => 0,
                },
            },
            p.downloaded == 0,
            p.last_pct == 0,
            progress_consistent(p),
    {
        let total = match content_length {
            Some(l) => l,
            None => match expected_size_hint {
                Some(h) => h,
                None => 0,
            },
        };
        DownloadProgress { total, downloaded: 0, last_pct: 0 }
    }

    /// `len` more bytes arrived. Returns the new percentage where it differs
    /// from the last one reported (which it then becomes), `None` otherwise.
    pub fn on_chunk(&mut self, len: u64) -> (r: Option<u8>)
        requires
            old(self).downloaded + len <= u64::MAX,
            old(self).total > 0 ==> (old(self).downloaded + len) * 100 <= u64::MAX,
        ensures
            final(self).total == old(self).total,
            final(self).downloaded == old(self).downloaded + len,
            final(self).last_pct == spec_percent(final(self).downloaded, final(self).total),
            progress_consistent(*final(self)),
            r == if spec_percent(final(self).downloaded, final(self).total) != old(self).last_pct {
                Some(spec_percent(final(self).downloaded, final(self).total))
            } else {
                None
            },
    {
        self.downloaded = self.downloaded + len;
        let pct: u8 = if self.total > 0 {
            let p = (self.downloaded * 100) / self.total;
            if p < 100 {
                p as u8
            } else {
                100
            }
        } else {
            0
        };
        if pct != self.last_pct {
            self.last_pct = pct;
            Some(pct)
        } else {
            None
        }
    }
}

/// Reported percentages never exceed 100, reach 100 once all announced
/// bytes are in, and are 0 while the total is unknown.
pub proof fn law_percent_bounds(downloaded: u64, total: u64)
    ensures
        spec_percent(downloaded, total) <= 100,
        total > 0 && downloaded >= total ==> spec_percent(downloaded, total) == 100,
        total == 0 ==> spec_percent(downloaded, total) == 0,
{
    if total > 0 && downloaded >= total {
        assert((downloaded * 100) / (total as int) >= 100) by (nonlinear_arith)
            requires
                downloaded >= total,
                total > 0,
        ;
    }
}

/// The percentage never goes down as bytes arrive.
pub proof fn law_percent_monotone(d1: u64, d2: u64, total: u64)
    requires
        d1 <= d2,
    ensures
        spec_percent(d1, total) <= spec_percent(d2, total),
{
    if total > 0 {
        assert((d1 * 100) / (total as int) <= (d2 * 100) / (total as int)) by (nonlinear_arith)
            requires
                d1 <= d2,
                total > 0,
        ;
    }
}

/// The bytes in `chunks` together.
pub open spec fn chunk_sum(chunks: Seq<u64>) -> nat
    decreases chunks.len(),
{
    if chunks.len() == 0 {
        0
    } else {
        chunk_sum(chunks.drop_last()) + chunks.last() as nat
    }
}

/// The percentages a download of `total` bytes publishes as `chunks` arrive
/// one after the other: after each chunk, the percentage of the bytes so far
/// where it differs from the one before (as `on_chunk` returns it).
pub open spec fn published(chunks: Seq<u64>, total: u64) -> Seq<u8>
    decreases chunks.len(),
{
    if chunks.len() == 0 {
        seq![]
    } else {
        let before = published(chunks.drop_last(), total);
        let p = spec_percent(chunk_sum(chunks) as u64, total);
        if p != spec_percent(chunk_sum(chunks.drop_last()) as u64, total) {
            before.push(p)
        } else {
            before
        }
    }
}

/// One more chunk publishes exactly what `on_chunk` returns for it: the
/// percentage of the bytes so far, where it differs from the one before.
pub proof fn law_next_published(chunks: Seq<u64>, len: u64, total: u64)
    requires
        chunk_sum(chunks) + len <= u64::MAX,
    ensures
        ({
            let p = spec_percent((chunk_sum(chunks) + len) as u64, total);
            published(chunks.push(len), total) == if p != spec_percent(
                chunk_sum(chunks) as u64,
                total,
            ) {
                published(chunks, total).push(p)
            } else {
                published(chunks, total)
            }
        }),
{
    assert(chunks.push(len).drop_last() =~= chunks);
    assert(chunk_sum(chunks.push(len)) == chunk_sum(chunks) + len);
}

/// Over any run of chunks, the published percentages rise strictly, never
/// pass 100, and none is published while the total is unknown.
pub proof fn law_published_progress(chunks: Seq<u64>, total: u64)
    requires
        chunk_sum(chunks) <= u64::MAX,
    ensures
        forall|i: int, j: int|
            0 <= i < j < published(chunks, total).len() ==> published(chunks, total)[i]
                < published(chunks, total)[j],
        forall|i: int|
            0 <= i < published(chunks, total).len() ==> published(chunks, total)[i] <= 100,
        forall|i: int|
            0 <= i < published(chunks, total).len() ==> published(chunks, total)[i]
                <= spec_percent(chunk_sum(chunks) as u64, total),
        total == 0 ==> published(chunks, total).len() == 0,
    decreases chunks.len(),
{
    if chunks.len() > 0 {
        let rest = chunks.drop_last();
        law_published_progress(rest, total);
        law_percent_monotone(chunk_sum(rest) as u64, chunk_sum(chunks) as u64, total);
        law_percent_bounds(chunk_sum(chunks) as u64, total);
        let before = published(rest, total);
        let p = spec_percent(chunk_sum(chunks) as u64, total);
        let q = spec_percent(chunk_sum(rest) as u64, total);
        if p != q {
            let all = before.push(p);
            assert(published(chunks, total) == all);
            assert forall|i: int| 0 <= i < all.len() implies all[i] <= 100 && all[i] <= p by {
                if i < before.len() {
                    assert(all[i] == before[i]);
                }
            }
            assert forall|i: int, j: int| 0 <= i < j < all.len() implies all[i] < all[j] by {
                assert(all[i] == before[i]);
                if j < before.len() {
                    assert(all[j] == before[j]);
                }
            }
        } else {
            assert(published(chunks, total) == before);
        }
    }
}

} // verus!
