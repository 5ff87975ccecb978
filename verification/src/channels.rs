//! Bands, channels and frequencies, and the mapping between them.

use crate::text::{
    decimal_text, decimal_u32, is_digit, lemma_decimal_text_value, pad_right, padded,
    parse_u32_prefix, push_decimal, unsigned_body,
};
use vstd::prelude::*;

verus! {

/// A Wi-Fi frequency band.
#[derive(Debug, Clone, Copy, PartialEq, Eq, Structural)]
pub enum WiFiBand {
    Band2GHz,
    Band5GHz,
    Band60GHz,
    Band6GHz,
    Unknown,
}

impl WiFiBand {
    /// The small integer that stands for the band on the wire.
    pub open spec fn code(self) -> u8 {
        match self {
            WiFiBand::Band2GHz => 2,
            WiFiBand::Band5GHz => 5,
            WiFiBand::Band6GHz => 6,
            WiFiBand::Band60GHz => 60,
            WiFiBand::Unknown => 0,
        }
    }

    /// The band that a wire code stands for, if any.
    pub open spec fn of_code(code: u8) -> Option<WiFiBand> {
        if code == 2 {
            Some(WiFiBand::Band2GHz)
        } else if code == 5 {
            Some(WiFiBand::Band5GHz)
        } else if code == 6 {
            Some(WiFiBand::Band6GHz)
        } else if code == 60 {
            Some(WiFiBand::Band60GHz)
        } else {
            None
        }
    }

    pub fn to_u8(&self) -> (code: u8)
        ensures
            code == self.code(),
    {
        match self {
            WiFiBand::Band2GHz => 2,
            WiFiBand::Band5GHz => 5,
            WiFiBand::Band6GHz => 6,
            WiFiBand::Band60GHz => 60,
            WiFiBand::Unknown => 0,
        }
    }

    pub fn from_u8(band: u8) -> (r: Result<WiFiBand, String>)
        ensures
            match r {
                Ok(b) => WiFiBand::of_code(band) == Some(b),
                Err(e) => WiFiBand::of_code(band).is_none() && e@ == "BAND NOT FOUND"@,
            },
    {
        match band {
            2 => Ok(WiFiBand::Band2GHz),
            5 => Ok(WiFiBand::Band5GHz),
            6 => Ok(WiFiBand::Band6GHz),
            60 => Ok(WiFiBand::Band60GHz),
            _ => Err(String::from_str("BAND NOT FOUND")),
        }
    }
}

/// Every band but `Unknown` survives the trip through its wire code.
pub proof fn lemma_band_code_round_trip(band: WiFiBand)
    requires
        band != WiFiBand::Unknown,
    ensures
        WiFiBand::of_code(band.code()) == Some(band),
{
}

/// Whether a channel of a band may be used at all.
#[derive(Debug, Clone, Copy, PartialEq, Eq, Structural)]
pub enum FrequencyStatus {
    Disabled,
    Enabled,
}

/// What a radio reports of one channel.
#[derive(Debug, Clone, Copy, PartialEq, Eq, Structural)]
pub struct ChannelData {
    pub frequency: u32,
    pub channel: u32,
    pub pwr: u32,
    pub status: FrequencyStatus,
}

impl ChannelData {
    /// The channel number is the one that belongs to the frequency.
    pub open spec fn wf(self) -> bool {
        self.channel == channel_of(self.frequency as int)
    }
}

impl Default for ChannelData {
    fn default() -> (r: Self)
        ensures
            r == (ChannelData { frequency: 0, channel: 0, pwr: 0, status: FrequencyStatus::Enabled }),
            r.wf(),
    {
        ChannelData { frequency: 0, channel: 0, pwr: 0, status: FrequencyStatus::Enabled }
    }
}

/// The channels that a radio supports in one band, in the order reported.
#[derive(Debug, Clone, PartialEq, Eq)]
pub struct BandList {
    pub band: WiFiBand,
    pub channels: Vec<ChannelData>,
}

/// A band's channels in specifications.
pub struct BandListView {
    pub band: WiFiBand,
    pub channels: Seq<ChannelData>,
}

impl View for BandList {
    type V = BandListView;

    open spec fn view(&self) -> BandListView {
        BandListView { band: self.band, channels: self.channels@ }
    }
}

/// The views of a sequence of band lists.
pub open spec fn band_views(bands: Seq<BandList>) -> Seq<BandListView> {
    Seq::new(bands.len(), |i: int| bands[i]@)
}

impl Default for BandList {
    fn default() -> (r: Self)
        ensures
            r@ == (BandListView { band: WiFiBand::Band2GHz, channels: Seq::empty() }),
    {
        BandList { band: WiFiBand::Band2GHz, channels: Vec::new() }
    }
}

impl BandList {
    /// A copy of the band list.
    pub fn snapshot(&self) -> (r: BandList)
        ensures
            r@ == self@,
    {
        let mut channels: Vec<ChannelData> = Vec::new();
        let mut i: usize = 0;
        while i < self.channels.len()
            invariant
                i <= self.channels@.len(),
                channels@ == self.channels@.take(i as int),
            decreases self.channels@.len() - i,
        {
            channels.push(self.channels[i]);
            assert(self.channels@.take(i as int).push(self.channels@[i as int])
                == self.channels@.take(i + 1));
            i = i + 1;
        }
        assert(self.channels@.take(i as int) == self.channels@);
        BandList { band: self.band, channels }
    }
}

/// No band occurs twice among the band lists.
pub open spec fn distinct_bands(bands: Seq<BandListView>) -> bool {
    forall|i: int, j: int|
        0 <= i < j < bands.len() ==> (#[trigger] bands[i]).band != (#[trigger] bands[j]).band
}

/// The place of the first band list of `band`, or the number of band
/// lists where there is none.
pub open spec fn band_index(bands: Seq<BandListView>, band: WiFiBand) -> int
    decreases bands.len(),
{
    if bands.len() == 0 {
        0
    } else {
        let i = band_index(bands.drop_last(), band);
        if i < bands.len() - 1 {
            i
        } else if bands.last().band == band {
            bands.len() - 1
        } else {
            bands.len() as int
        }
    }
}

/// Whether a channel of the number `number` stands among the channels.
pub open spec fn holds_number(channels: Seq<ChannelData>, number: u32) -> bool {
    exists|i: int| 0 <= i < channels.len() && (#[trigger] channels[i]).channel == number
}

/// No channel number occurs twice among the channels.
pub open spec fn unique_numbers(channels: Seq<ChannelData>) -> bool {
    forall|i: int, j: int|
        0 <= i < j < channels.len() ==> (#[trigger] channels[i]).channel != (
        #[trigger] channels[j]).channel
}

/// The channels united with the first `n` of `new`: each of these, in
/// its order, goes behind the others, unless a channel of its number
/// stands there already.
pub open spec fn united(channels: Seq<ChannelData>, new: Seq<ChannelData>, n: nat) -> Seq<
    ChannelData,
>
    decreases n,
{
    if n == 0 {
        channels
    } else {
        let front = united(channels, new, (n - 1) as nat);
        if holds_number(front, new[n - 1].channel) {
            front
        } else {
            front.push(new[n - 1])
        }
    }
}

/// The band lists with one more merged in: its channels are united with
/// those of the list of its band, and where there is no such list, it
/// becomes the last, with the first channel of each number.
pub open spec fn with_band(bands: Seq<BandListView>, new: BandListView) -> Seq<BandListView> {
    let i = band_index(bands, new.band);
    if i < bands.len() {
        bands.update(
            i,
            BandListView {
                band: new.band,
                channels: united(bands[i].channels, new.channels, new.channels.len()),
            },
        )
    } else {
        bands.push(
            BandListView {
                band: new.band,
                channels: united(Seq::empty(), new.channels, new.channels.len()),
            },
        )
    }
}

/// The band lists with the first `n` of `new` merged in, one by one.
pub open spec fn with_bands(bands: Seq<BandListView>, new: Seq<BandListView>, n: nat) -> Seq<
    BandListView,
>
    decreases n,
{
    if n == 0 {
        bands
    } else {
        with_band(with_bands(bands, new, (n - 1) as nat), new[n - 1])
    }
}

/// The channels that the band lists hold of `band`: those of its first
/// list, none where it has none.
pub open spec fn channels_in(bands: Seq<BandListView>, band: WiFiBand) -> Seq<ChannelData> {
    let i = band_index(bands, band);
    if i < bands.len() {
        bands[i].channels
    } else {
        Seq::empty()
    }
}

/// `band_index` is the place of the first list of the band.
pub proof fn lemma_band_index(bands: Seq<BandListView>, band: WiFiBand)
    ensures
        0 <= band_index(bands, band) <= bands.len(),
        band_index(bands, band) < bands.len() ==> bands[band_index(bands, band)].band == band,
        forall|j: int| 0 <= j < band_index(bands, band) ==> (#[trigger] bands[j]).band != band,
    decreases bands.len(),
{
    if bands.len() > 0 {
        let front = bands.drop_last();
        lemma_band_index(front, band);
        assert forall|j: int| 0 <= j < band_index(bands, band) implies (#[trigger] bands[j]).band
            != band by {
            if j < front.len() {
                assert(front[j] == bands[j]);
            }
        }
    }
}

/// What uniting does: the channels that were there stay as they were,
/// at the head and in their order; what stands behind them are channels
/// of `new`; a number occurs in the result where it occurs in either; a
/// channel of `new` is taken exactly where its number occurs neither in
/// the result so far; and no number comes to occur twice.
pub proof fn lemma_united(channels: Seq<ChannelData>, new: Seq<ChannelData>, n: nat)
    requires
        n <= new.len(),
    ensures
        channels.len() <= united(channels, new, n).len() <= channels.len() + n,
        united(channels, new, n).take(channels.len() as int) == channels,
        forall|i: int|
            channels.len() <= i < united(channels, new, n).len() ==> exists|k: int|
                0 <= k < n && #[trigger] united(channels, new, n)[i] == new[k],
        forall|number: u32| #[trigger]
            holds_number(united(channels, new, n), number) <==> holds_number(channels, number)
                || holds_number(new.take(n as int), number),
        unique_numbers(channels) ==> unique_numbers(united(channels, new, n)),
    decreases n,
{
    let result = united(channels, new, n);
    if n == 0 {
        assert(result.take(channels.len() as int) == channels);
        assert forall|number: u32| #[trigger]
            holds_number(result, number) <==> holds_number(channels, number) || holds_number(
                new.take(n as int),
                number,
            ) by {
            assert(new.take(0).len() == 0);
        }
    } else {
        let front = united(channels, new, (n - 1) as nat);
        let last = new[n - 1];
        lemma_united(channels, new, (n - 1) as nat);
        assert(result.take(channels.len() as int) == front.take(channels.len() as int));
        assert forall|i: int| channels.len() <= i < result.len() implies exists|k: int|
            0 <= k < n && #[trigger] result[i] == new[k] by {
            if i < front.len() {
                let k = choose|k: int| 0 <= k < n - 1 && front[i] == new[k];
                assert(result[i] == new[k]);
            } else {
                assert(result[i] == new[n - 1]);
            }
        }
        assert forall|number: u32| #[trigger]
            holds_number(result, number) <==> holds_number(channels, number) || holds_number(
                new.take(n as int),
                number,
            ) by {
            let less = new.take(n - 1);
            let more = new.take(n as int);
            assert(holds_number(front, number) <==> holds_number(channels, number)
                || holds_number(less, number));
            if holds_number(less, number) {
                let k = choose|k: int| 0 <= k < less.len() && less[k].channel == number;
                assert(more[k].channel == number);
            }
            if holds_number(more, number) && !holds_number(less, number) {
                let k = choose|k: int| 0 <= k < more.len() && more[k].channel == number;
                if k < n - 1 {
                    assert(less[k].channel == number);
                }
                assert(last.channel == number);
            }
            if last.channel == number {
                assert(more[n - 1].channel == number);
            }
            if holds_number(front, number) {
                let i = choose|i: int| 0 <= i < front.len() && front[i].channel == number;
                assert(result[i].channel == number);
            }
            if holds_number(result, number) && !holds_number(front, number) {
                let i = choose|i: int| 0 <= i < result.len() && result[i].channel == number;
                if i < front.len() {
                    assert(front[i].channel == number);
                }
            }
            if !holds_number(front, last.channel) && last.channel == number {
                assert(result[result.len() - 1].channel == number);
            }
        }
        if unique_numbers(channels) {
            assert forall|i: int, j: int| 0 <= i < j < result.len() implies (
            #[trigger] result[i]).channel != (#[trigger] result[j]).channel by {
                if j < front.len() {
                    assert(front[i].channel != front[j].channel);
                } else {
                    assert(front[i].channel != last.channel);
                }
            }
        }
    }
}

/// A channel of `new` is taken exactly where its number occurs neither
/// among the channels that were there nor earlier in `new`.
pub proof fn lemma_united_takes(channels: Seq<ChannelData>, new: Seq<ChannelData>, n: nat)
    requires
        0 < n <= new.len(),
    ensures
        united(channels, new, n) == if holds_number(channels, new[n - 1].channel) || holds_number(
            new.take(n - 1),
            new[n - 1].channel,
        ) {
            united(channels, new, (n - 1) as nat)
        } else {
            united(channels, new, (n - 1) as nat).push(new[n - 1])
        },
{
    lemma_united(channels, new, (n - 1) as nat);
}

/// Merging a band list in keeps the bands distinct, unites its channels
/// with those of its band, and leaves the channels of every other band
/// as they were.
pub proof fn lemma_with_band(bands: Seq<BandListView>, new: BandListView)
    requires
        distinct_bands(bands),
    ensures
        distinct_bands(with_band(bands, new)),
        channels_in(with_band(bands, new), new.band) == united(
            channels_in(bands, new.band),
            new.channels,
            new.channels.len(),
        ),
        forall|other: WiFiBand|
            other != new.band ==> channels_in(with_band(bands, new), other) == #[trigger] channels_in(
                bands,
                other,
            ),
{
    let merged = with_band(bands, new);
    let i = band_index(bands, new.band);
    lemma_band_index(bands, new.band);
    lemma_band_index(merged, new.band);
    assert forall|a: int, b: int| 0 <= a < b < merged.len() implies (#[trigger] merged[a]).band != (
    #[trigger] merged[b]).band by {
        if i < bands.len() {
            assert(merged[a].band == bands[a].band);
            assert(merged[b].band == bands[b].band);
        } else {
            assert(merged[a] == bands[a]);
            if b < bands.len() {
                assert(merged[b] == bands[b]);
            }
        }
    }
    assert(band_index(merged, new.band) == i) by {
        assert(merged[i].band == new.band);
        if band_index(merged, new.band) < i {
            assert(merged[band_index(merged, new.band)].band == bands[band_index(
                merged,
                new.band,
            )].band);
        }
    }
    assert forall|other: WiFiBand| other != new.band implies channels_in(merged, other)
        == #[trigger] channels_in(bands, other) by {
        lemma_band_index(bands, other);
        lemma_band_index(merged, other);
        let a = band_index(bands, other);
        let b = band_index(merged, other);
        if a < bands.len() {
            assert(merged[a] == bands[a]);
            if b < a {
                assert(merged[b].band == bands[b].band);
            }
            assert(a == b);
        } else {
            if b < merged.len() {
                if b < bands.len() {
                    assert(merged[b].band == bands[b].band);
                }
            }
            assert(b == merged.len());
        }
    }
}

fn has_number(channels: &Vec<ChannelData>, number: u32) -> (r: bool)
    ensures
        r == holds_number(channels@, number),
{
    let mut i: usize = 0;
    while i < channels.len()
        invariant
            i <= channels@.len(),
            forall|j: int| 0 <= j < i ==> (#[trigger] channels@[j]).channel != number,
        decreases channels@.len() - i,
    {
        if channels[i].channel == number {
            return true;
        }
        i = i + 1;
    }
    false
}

/// Unites the channels `new` with `channels`.
pub fn unite_channels(channels: &mut Vec<ChannelData>, new: &Vec<ChannelData>)
    ensures
        final(channels)@ == united(old(channels)@, new@, new@.len()),
{
    let mut k: usize = 0;
    while k < new.len()
        invariant
            k <= new@.len(),
            channels@ == united(old(channels)@, new@, k as nat),
        decreases new@.len() - k,
    {
        if !has_number(channels, new[k].channel) {
            channels.push(new[k]);
        }
        k = k + 1;
    }
}

/// Merges one band list into `bands`.
pub fn merge_band(bands: &mut Vec<BandList>, new: BandList)
    ensures
        band_views(final(bands)@) == with_band(band_views(old(bands)@), new@),
{
    let ghost views = band_views(bands@);
    let mut i: usize = 0;
    while i < bands.len()
        invariant
            i <= bands@.len(),
            bands@ == old(bands)@,
            views == band_views(bands@),
            band_index(views.take(i as int), new.band) == i,
        decreases bands@.len() - i,
    {
        assert(views.take(i + 1).drop_last() == views.take(i as int));
        if bands[i].band == new.band {
            proof {
                lemma_band_index_prefix(views, i + 1, new.band);
            }
            let item = bands.remove(i);
            let mut channels = item.channels;
            unite_channels(&mut channels, &new.channels);
            bands.insert(i, BandList { band: new.band, channels });
            assert(band_views(bands@) == with_band(views, new@));
            return;
        }
        i = i + 1;
    }
    assert(views.take(i as int) == views);
    let mut channels: Vec<ChannelData> = Vec::new();
    unite_channels(&mut channels, &new.channels);
    bands.push(BandList { band: new.band, channels });
    assert(band_views(bands@) == with_band(views, new@));
}

/// Where a prefix holds a list of the band, the first such list of the
/// whole stands in the prefix.
pub proof fn lemma_band_index_prefix(bands: Seq<BandListView>, k: int, band: WiFiBand)
    requires
        0 <= k <= bands.len(),
        band_index(bands.take(k), band) < k,
    ensures
        band_index(bands, band) == band_index(bands.take(k), band),
    decreases bands.len(),
{
    if k < bands.len() {
        assert(bands.drop_last().take(k) == bands.take(k));
        lemma_band_index_prefix(bands.drop_last(), k, band);
    } else {
        assert(bands.take(k) == bands);
    }
}

/// Merges the band lists `new` into `bands`, in their order.
pub fn merge_bands(bands: &mut Vec<BandList>, new: Vec<BandList>)
    ensures
        band_views(final(bands)@) == with_bands(
            band_views(old(bands)@),
            band_views(new@),
            new@.len(),
        ),
{
    let mut i: usize = 0;
    let ghost news = band_views(new@);
    while i < new.len()
        invariant
            i <= new@.len(),
            news == band_views(new@),
            band_views(bands@) == with_bands(band_views(old(bands)@), news, i as nat),
        decreases new@.len() - i,
    {
        let item = new[i].snapshot();
        merge_band(bands, item);
        i = i + 1;
    }
}

impl BandListView {
    /// Each channel has the number that belongs to its frequency.
    pub open spec fn channels_wf(self) -> bool {
        forall|i: int| 0 <= i < self.channels.len() ==> (#[trigger] self.channels[i]).wf()
    }

    /// Each channel has the number that belongs to its frequency, and no
    /// number occurs twice.
    pub open spec fn wf(self) -> bool {
        self.channels_wf() && unique_numbers(self.channels)
    }
}

/// No band occurs twice among the band lists, each channel has the
/// number that belongs to its frequency, and no number occurs twice in
/// one band.
pub open spec fn bands_wf(bands: Seq<BandListView>) -> bool {
    distinct_bands(bands) && forall|i: int| 0 <= i < bands.len() ==> (#[trigger] bands[i]).wf()
}

/// Uniting channels that have the numbers of their frequencies gives
/// channels that have them.
pub proof fn lemma_united_wf(channels: Seq<ChannelData>, new: Seq<ChannelData>, n: nat)
    requires
        n <= new.len(),
        forall|i: int| 0 <= i < channels.len() ==> (#[trigger] channels[i]).wf(),
        forall|i: int| 0 <= i < new.len() ==> (#[trigger] new[i]).wf(),
    ensures
        forall|i: int|
            0 <= i < united(channels, new, n).len() ==> (#[trigger] united(channels, new, n)[i]).wf(),
    decreases n,
{
    if n > 0 {
        lemma_united_wf(channels, new, (n - 1) as nat);
        let front = united(channels, new, (n - 1) as nat);
        let result = united(channels, new, n);
        assert forall|i: int| 0 <= i < result.len() implies (#[trigger] result[i]).wf() by {
            if i < front.len() {
                assert(result[i] == front[i]);
            } else {
                assert(result[i] == new[n - 1]);
            }
        }
    }
}

/// Merging band lists in keeps the bands distinct, the channels on
/// their frequencies and the numbers of each band unique.
pub proof fn lemma_with_bands_wf(bands: Seq<BandListView>, new: Seq<BandListView>, n: nat)
    requires
        bands_wf(bands),
        forall|i: int| 0 <= i < new.len() ==> (#[trigger] new[i]).channels_wf(),
        n <= new.len(),
    ensures
        bands_wf(with_bands(bands, new, n)),
    decreases n,
{
    if n > 0 {
        lemma_with_bands_wf(bands, new, (n - 1) as nat);
        let before = with_bands(bands, new, (n - 1) as nat);
        let item = new[n - 1];
        lemma_with_band(before, item);
        lemma_band_index(before, item.band);
        let after = with_band(before, item);
        let i = band_index(before, item.band);
        let old = if i < before.len() {
            before[i].channels
        } else {
            Seq::empty()
        };
        assert(item.channels_wf());
        if i < before.len() {
            assert(before[i].wf());
        }
        lemma_united(old, item.channels, item.channels.len());
        lemma_united_wf(old, item.channels, item.channels.len());
        assert forall|k: int| 0 <= k < after.len() implies (#[trigger] after[k]).wf() by {
            if k == i {
                assert(after[k].channels == united(old, item.channels, item.channels.len()));
            } else {
                assert(after[k] == before[k]);
                assert(before[k].wf());
            }
        }
    }
}

/// The frequency in MHz of a channel of a band, 0 where the band has no
/// such channel.
pub open spec fn frequency_of(chan: int, band: WiFiBand) -> int {
    if chan <= 0 {
        0
    } else {
        match band {
            WiFiBand::Band2GHz => if chan == 14 {
                2484
            } else if chan < 14 {
                2407 + 5 * chan
            } else {
                0
            },
            WiFiBand::Band5GHz => if 182 <= chan <= 196 {
                4000 + 5 * chan
            } else {
                5000 + 5 * chan
            },
            WiFiBand::Band6GHz => if chan == 2 {
                5935
            } else if chan <= 253 {
                5950 + 5 * chan
            } else {
                0
            },
            WiFiBand::Band60GHz => if chan < 7 {
                56160 + 2160 * chan
            } else {
                0
            },
            WiFiBand::Unknown => 0,
        }
    }
}

/// The band that a frequency in MHz lies in.
pub open spec fn band_of(freq: int) -> WiFiBand {
    if freq < 1000 {
        WiFiBand::Unknown
    } else if freq <= 2484 {
        WiFiBand::Band2GHz
    } else if 4910 <= freq <= 4980 {
        WiFiBand::Band5GHz
    } else if 5150 <= freq <= 5924 {
        WiFiBand::Band5GHz
    } else if 5925 <= freq <= 7125 {
        WiFiBand::Band6GHz
    } else if 58320 <= freq <= 70200 {
        WiFiBand::Band60GHz
    } else {
        WiFiBand::Unknown
    }
}

/// The channel number that a frequency in MHz falls on, 0 where it falls
/// on none.
pub open spec fn channel_of(freq: int) -> int {
    if freq < 1000 {
        0
    } else if freq == 2484 {
        14
    } else if freq == 5935 {
        2
    } else if freq < 2484 {
        if freq >= 2407 {
            (freq - 2407) / 5
        } else {
            0
        }
    } else if 4910 <= freq <= 4980 {
        (freq - 4000) / 5
    } else if freq < 5950 {
        if freq >= 5000 {
            (freq - 5000) / 5
        } else {
            0
        }
    } else if freq <= 45000 {
        (freq - 5950) / 5
    } else if 58320 <= freq <= 70200 {
        (freq - 56160) / 2160
    } else {
        0
    }
}

/// The frequency of channel `chan` of `band`. The result is 0 where the
/// band has no such channel, and where the frequency would not fit `u32`.
pub fn chan_to_frequency(chan: u32, band: WiFiBand) -> (freq: u32)
    ensures
        freq == if frequency_of(chan as int, band) <= u32::MAX {
            frequency_of(chan as int, band)
        } else {
            0
        },
{
    if chan == 0 {
        return 0;
    }
    match band {
        WiFiBand::Band2GHz => {
            if chan == 14 {
                2484
            } else if chan < 14 {
                2407 + chan * 5
            } else {
                0
            }
        },
        WiFiBand::Band5GHz => {
            if 182 <= chan && chan <= 196 {
                4000 + chan * 5
            } else if chan <= (u32::MAX - 5000) / 5 {
                5000 + chan * 5
            } else {
                0
            }
        },
        WiFiBand::Band6GHz => {
            if chan == 2 {
                5935
            } else if chan <= 253 {
                5950 + chan * 5
            } else {
                0
            }
        },
        WiFiBand::Band60GHz => {
            if chan < 7 {
                56160 + chan * 2160
            } else {
                0
            }
        },
        WiFiBand::Unknown => 0,
    }
}

/// The channel number that `freq` falls on.
pub fn chan_from_frequency(freq: u32) -> (chan: u32)
    ensures
        chan == channel_of(freq as int),
{
    if freq < 1000 {
        0
    } else if freq == 2484 {
        14
    } else if freq == 5935 {
        2
    } else if freq < 2484 {
        if freq >= 2407 {
            (freq - 2407) / 5
        } else {
            0
        }
    } else if 4910 <= freq && freq <= 4980 {
        (freq - 4000) / 5
    } else if freq < 5950 {
        if freq >= 5000 {
            (freq - 5000) / 5
        } else {
            0
        }
    } else if freq <= 45000 {
        (freq - 5950) / 5
    } else if 58320 <= freq && freq <= 70200 {
        (freq - 56160) / 2160
    } else {
        0
    }
}

/// The band that `freq` lies in.
pub fn freq_to_band(freq: u32) -> (band: WiFiBand)
    ensures
        band == band_of(freq as int),
{
    if freq < 1000 {
        WiFiBand::Unknown
    } else if freq <= 2484 {
        WiFiBand::Band2GHz
    } else if 4910 <= freq && freq <= 4980 {
        WiFiBand::Band5GHz
    } else if 5150 <= freq && freq <= 5924 {
        WiFiBand::Band5GHz
    } else if 5925 <= freq && freq <= 7125 {
        WiFiBand::Band6GHz
    } else if 58320 <= freq && freq <= 70200 {
        WiFiBand::Band60GHz
    } else {
        WiFiBand::Unknown
    }
}

/// Whether `s` ends in a dot and the two characters `a` and `b`.
pub open spec fn has_band_suffix(s: Seq<char>, a: char, b: char) -> bool {
    s.len() >= 3 && s[s.len() - 3] == '.' && s[s.len() - 2] == a && s[s.len() - 1] == b
}

/// The band and channel that a channel token names. A token that ends in
/// `.6e` names a 6 GHz channel, one that ends in `.ay` a 60 GHz channel,
/// and a plain number a 2.4 GHz channel up to 14 and a 5 GHz channel
/// above.
pub open spec fn token_channel(s: Seq<char>) -> Option<(WiFiBand, u32)> {
    if has_band_suffix(s, '6', 'e') {
        match decimal_u32(s.take(s.len() - 3)) {
            Some(ch) => Some((WiFiBand::Band6GHz, ch)),
            None => None,
        }
    } else if has_band_suffix(s, 'a', 'y') {
        match decimal_u32(s.take(s.len() - 3)) {
            Some(ch) => Some((WiFiBand::Band60GHz, ch)),
            None => None,
        }
    } else {
        match decimal_u32(s) {
            Some(ch) => if 1 <= ch <= 14 {
                Some((WiFiBand::Band2GHz, ch))
            } else if ch >= 14 {
                Some((WiFiBand::Band5GHz, ch))
            } else {
                None
            },
            None => None,
        }
    }
}

fn ends_with_band_suffix(s: &str, n: usize, a: char, b: char) -> (r: bool)
    requires
        n == s@.len(),
    ensures
        r == has_band_suffix(s@, a, b),
{
    n >= 3 && s.get_char(n - 3) == '.' && s.get_char(n - 2) == a && s.get_char(n - 1) == b
}

/// Reads a channel token such as `11`, `36`, `5.6e` or `2.ay`.
pub fn map_str_to_band_and_channel(channel_str: &str) -> (r: Option<(WiFiBand, u32)>)
    ensures
        r == token_channel(channel_str@),
{
    let n = channel_str.unicode_len();
    if ends_with_band_suffix(channel_str, n, '6', 'e') {
        match parse_u32_prefix(channel_str, n - 3) {
            Some(ch) => Some((WiFiBand::Band6GHz, ch)),
            None => None,
        }
    } else if ends_with_band_suffix(channel_str, n, 'a', 'y') {
        match parse_u32_prefix(channel_str, n - 3) {
            Some(ch) => Some((WiFiBand::Band60GHz, ch)),
            None => None,
        }
    } else {
        assert(channel_str@.take(n as int) == channel_str@);
        match parse_u32_prefix(channel_str, n) {
            Some(ch) => {
                if ch >= 1 && ch <= 14 {
                    Some((WiFiBand::Band2GHz, ch))
                } else if ch >= 14 {
                    Some((WiFiBand::Band5GHz, ch))
                } else {
                    None
                }
            },
            None => None,
        }
    }
}

/// The channel numbers that each band admits.
pub open spec fn legal_channel(band: WiFiBand, chan: int) -> bool {
    match band {
        WiFiBand::Band2GHz => 1 <= chan <= 14,
        WiFiBand::Band5GHz => {
            ||| (34 <= chan <= 64 && chan % 2 == 0)
            ||| (68 <= chan <= 96 && chan % 4 == 0)
            ||| (100 <= chan <= 144 && chan % 2 == 0)
            ||| (149 <= chan <= 161 && chan % 2 == 1)
            ||| (165 <= chan <= 181 && chan % 4 == 1)
            ||| (184 <= chan <= 196 && chan % 4 == 0)
        },
        WiFiBand::Band6GHz => chan == 2 || (1 <= chan <= 233 && chan % 4 == 1),
        WiFiBand::Band60GHz => 1 <= chan <= 6,
        WiFiBand::Unknown => false,
    }
}

/// The frequencies that are the frequency of some channel of their band:
/// those from which band and channel number lead back to the frequency.
pub open spec fn on_channel_grid(freq: int) -> bool {
    ||| freq == 2484
    ||| (2412 <= freq <= 2472 && (freq - 2407) % 5 == 0)
    ||| (4910 <= freq <= 4980 && freq % 5 == 0)
    ||| (5150 <= freq < 5910 && freq % 5 == 0)
    ||| freq == 5935
    ||| (5955 <= freq <= 7125 && freq % 5 == 0 && freq != 5960)
    ||| (58320 <= freq <= 70200 && (freq - 56160) % 2160 == 0)
}

/// A legal channel of a band has a frequency that lies in that band and
/// falls on that channel.
pub proof fn lemma_channel_round_trip(band: WiFiBand, chan: int)
    requires
        legal_channel(band, chan),
    ensures
        band_of(frequency_of(chan, band)) == band,
        channel_of(frequency_of(chan, band)) == chan,
        frequency_of(chan, band) <= u32::MAX,
{
}

/// Channel 14 of the 2.4 GHz band lies at 2484 MHz, channel 2 of the
/// 6 GHz band at 5935 MHz, and both frequencies lead back to them.
pub proof fn lemma_irregular_channels()
    ensures
        frequency_of(14, WiFiBand::Band2GHz) == 2484,
        band_of(2484) == WiFiBand::Band2GHz,
        channel_of(2484) == 14,
        frequency_of(2, WiFiBand::Band6GHz) == 5935,
        band_of(5935) == WiFiBand::Band6GHz,
        channel_of(5935) == 2,
{
}

/// A frequency on the channel grid is the frequency of the channel it
/// falls on, in the band it lies in.
pub proof fn lemma_frequency_round_trip(freq: int)
    requires
        on_channel_grid(freq),
    ensures
        band_of(freq) != WiFiBand::Unknown,
        frequency_of(channel_of(freq), band_of(freq)) == freq,
{
}

/// A frequency that lies in a band but off the channel grid is not the
/// frequency of the channel that it falls on.
pub proof fn lemma_off_grid_frequency(freq: int)
    requires
        band_of(freq) != WiFiBand::Unknown,
        !on_channel_grid(freq),
    ensures
        frequency_of(channel_of(freq), band_of(freq)) != freq,
{
}

impl WiFiBand {
    /// The band's identifier in text.
    pub open spec fn name(self) -> Seq<char> {
        match self {
            WiFiBand::Band2GHz => "Band2GHz"@,
            WiFiBand::Band5GHz => "Band5GHz"@,
            WiFiBand::Band60GHz => "Band60GHz"@,
            WiFiBand::Band6GHz => "Band6GHz"@,
            WiFiBand::Unknown => "Unknown"@,
        }
    }

    pub fn string(&self) -> (s: &'static str)
        ensures
            s@ == self.name(),
    {
        match self {
            WiFiBand::Band2GHz => "Band2GHz",
            WiFiBand::Band5GHz => "Band5GHz",
            WiFiBand::Band60GHz => "Band60GHz",
            WiFiBand::Band6GHz => "Band6GHz",
            WiFiBand::Unknown => "Unknown",
        }
    }
}

/// The width of the cell of one channel in a rendering.
pub const CELL_WIDTH: usize = 17;

/// How many of the first `n` channels are enabled.
pub open spec fn enabled_among(channels: Seq<ChannelData>, n: nat) -> nat
    decreases n,
{
    if n == 0 {
        0
    } else if channels[n - 1].status == FrequencyStatus::Enabled {
        enabled_among(channels, (n - 1) as nat) + 1
    } else {
        enabled_among(channels, (n - 1) as nat)
    }
}

/// The channel as a channel token: the number, with the suffix of the
/// band that the frequency lies in.
pub open spec fn channel_label(ch: ChannelData) -> Seq<char> {
    match band_of(ch.frequency as int) {
        WiFiBand::Band2GHz => decimal_text(ch.channel as nat),
        WiFiBand::Band5GHz => decimal_text(ch.channel as nat),
        WiFiBand::Band60GHz => decimal_text(ch.channel as nat) + ".ay"@,
        WiFiBand::Band6GHz => decimal_text(ch.channel as nat) + ".6e"@,
        WiFiBand::Unknown => "Unknown"@,
    }
}

/// The token under which a legal channel is rendered reads back as that
/// channel of that band.
pub proof fn lemma_label_reads_back(band: WiFiBand, chan: u32, pwr: u32, status: FrequencyStatus)
    requires
        legal_channel(band, chan as int),
    ensures
        token_channel(
            channel_label(
                ChannelData {
                    frequency: frequency_of(chan as int, band) as u32,
                    channel: chan,
                    pwr,
                    status,
                },
            ),
        ) == Some((band, chan)),
{
    lemma_decimal_text_value(chan as nat);
    reveal_strlit(".6e");
    reveal_strlit(".ay");
    let digits = decimal_text(chan as nat);
    match band {
        WiFiBand::Band6GHz => {
            let label = digits + ".6e"@;
            assert(label.take(label.len() - 3) == digits);
        },
        WiFiBand::Band60GHz => {
            let label = digits + ".ay"@;
            assert(label.take(label.len() - 3) == digits);
        },
        _ => {},
    }
}

/// The cell of one channel: the frequency and the channel token in
/// brackets, padded to the width of a cell.
pub open spec fn channel_cell(ch: ChannelData) -> Seq<char> {
    padded(
        "["@ + decimal_text(ch.frequency as nat) + " ("@ + channel_label(ch) + ")]"@,
        CELL_WIDTH as nat,
    )
}

/// The cells of the enabled among the first `n` channels, with a line
/// break and an indent behind every `width`th cell.
pub open spec fn channel_rows(channels: Seq<ChannelData>, width: nat, n: nat) -> Seq<char>
    decreases n,
{
    if n == 0 {
        Seq::empty()
    } else {
        let front = channel_rows(channels, width, (n - 1) as nat);
        if channels[n - 1].status == FrequencyStatus::Enabled {
            front + channel_cell(channels[n - 1]) + (if enabled_among(channels, n) % width == 0 {
                "\n  "@
            } else {
                Seq::empty()
            })
        } else {
            front
        }
    }
}

/// The section of one band: its name, then its enabled channels in rows,
/// then an empty line. A band without an enabled channel has no section.
pub open spec fn band_section(band: BandListView, width: nat) -> Seq<char> {
    if enabled_among(band.channels, band.channels.len()) > 0 {
        band.band.name() + ":\n  "@ + channel_rows(band.channels, width, band.channels.len())
            + "\n\n"@
    } else {
        Seq::empty()
    }
}

/// The sections of the first `n` bands.
pub open spec fn band_sections(bands: Seq<BandListView>, width: nat, n: nat) -> Seq<char>
    decreases n,
{
    if n == 0 {
        Seq::empty()
    } else {
        band_sections(bands, width, (n - 1) as nat) + band_section(bands[n - 1], width)
    }
}

/// A band whose channels are all disabled has no section: the rendering
/// is the same with the band and without.
pub proof fn lemma_band_without_enabled_channels(bands: Seq<BandListView>, width: nat, n: nat)
    requires
        0 < n <= bands.len(),
        forall|i: int|
            0 <= i < bands[n - 1].channels.len() ==> (#[trigger] bands[n - 1].channels[i]).status
                == FrequencyStatus::Disabled,
    ensures
        band_sections(bands, width, n) == band_sections(bands, width, (n - 1) as nat),
{
    lemma_none_enabled(bands[n - 1].channels, bands[n - 1].channels.len());
}

/// The sections of the first `n` bands are those of any other bands
/// that begin with the same `n`.
pub proof fn lemma_band_sections_agree(
    a: Seq<BandListView>,
    b: Seq<BandListView>,
    width: nat,
    n: nat,
)
    requires
        n <= a.len(),
        n <= b.len(),
        forall|i: int| 0 <= i < n ==> a[i] == b[i],
    ensures
        band_sections(a, width, n) == band_sections(b, width, n),
    decreases n,
{
    if n > 0 {
        lemma_band_sections_agree(a, b, width, (n - 1) as nat);
    }
}

/// A band whose channels are all disabled is left out, wherever it
/// stands: the sections are those of the bands without it.
pub proof fn lemma_idle_band_is_left_out(bands: Seq<BandListView>, width: nat, k: int, n: nat)
    requires
        0 <= k < n <= bands.len(),
        forall|i: int|
            0 <= i < bands[k].channels.len() ==> (#[trigger] bands[k].channels[i]).status
                == FrequencyStatus::Disabled,
    ensures
        band_sections(bands, width, n) == band_sections(bands.remove(k), width, (n - 1) as nat),
    decreases n,
{
    let rest = bands.remove(k);
    if n == k + 1 {
        lemma_none_enabled(bands[k].channels, bands[k].channels.len());
        lemma_band_sections_agree(bands, rest, width, k as nat);
        assert(band_sections(bands, width, n) == band_sections(bands, width, k as nat)
            + Seq::<char>::empty());
    } else {
        lemma_idle_band_is_left_out(bands, width, k, (n - 1) as nat);
        assert(rest[n - 2] == bands[n - 1]);
    }
}

/// A band with an enabled channel has its section: the name of the
/// band and a colon, then its channels row by row.
pub proof fn lemma_busy_band_has_its_section(band: BandListView, width: nat, k: int)
    requires
        0 <= k < band.channels.len(),
        band.channels[k].status == FrequencyStatus::Enabled,
    ensures
        band_section(band, width) == band.band.name() + ":\n  "@ + channel_rows(
            band.channels,
            width,
            band.channels.len(),
        ) + "\n\n"@,
{
    lemma_some_enabled(band.channels, band.channels.len(), k);
}

/// Where one of the first `n` channels is enabled, the count of the
/// enabled ones is not zero.
pub proof fn lemma_some_enabled(channels: Seq<ChannelData>, n: nat, k: int)
    requires
        0 <= k < n <= channels.len(),
        channels[k].status == FrequencyStatus::Enabled,
    ensures
        enabled_among(channels, n) > 0,
    decreases n,
{
    if k < n - 1 {
        lemma_some_enabled(channels, (n - 1) as nat, k);
    }
}

/// Where the first `n` channels are all disabled, none of them is
/// enabled.
pub proof fn lemma_none_enabled(channels: Seq<ChannelData>, n: nat)
    requires
        n <= channels.len(),
        forall|i: int|
            0 <= i < n ==> (#[trigger] channels[i]).status == FrequencyStatus::Disabled,
    ensures
        enabled_among(channels, n) == 0,
    decreases n,
{
    if n > 0 {
        lemma_none_enabled(channels, (n - 1) as nat);
    }
}

fn push_channel_cell(line: &mut String, ch: &ChannelData)
    ensures
        final(line)@ == old(line)@ + channel_cell(*ch),
{
    let mut cell = String::from_str("[");
    push_decimal(&mut cell, ch.frequency as u64);
    cell.append(" (");
    match freq_to_band(ch.frequency) {
        WiFiBand::Band2GHz => push_decimal(&mut cell, ch.channel as u64),
        WiFiBand::Band5GHz => push_decimal(&mut cell, ch.channel as u64),
        WiFiBand::Band60GHz => {
            push_decimal(&mut cell, ch.channel as u64);
            cell.append(".ay");
        },
        WiFiBand::Band6GHz => {
            push_decimal(&mut cell, ch.channel as u64);
            cell.append(".6e");
        },
        WiFiBand::Unknown => cell.append("Unknown"),
    }
    cell.append(")]");
    pad_right(&mut cell, CELL_WIDTH);
    line.append(cell.as_str());
}

/// Renders the enabled channels of each band, `width` channels to a row.
pub fn pretty_print_band_lists(band_lists: &[BandList], width: usize) -> (output: String)
    requires
        width > 0,
    ensures
        output@ == band_sections(band_views(band_lists@), width as nat, band_lists@.len()),
{
    let ghost bands = band_views(band_lists@);
    let mut output = String::new();
    let mut b: usize = 0;
    while b < band_lists.len()
        invariant
            b <= band_lists@.len(),
            width > 0,
            bands == band_views(band_lists@),
            output@ == band_sections(bands, width as nat, b as nat),
        decreases band_lists@.len() - b,
    {
        let band_list = &band_lists[b];
        let mut line = String::new();
        let mut count: usize = 0;
        let mut c: usize = 0;
        while c < band_list.channels.len()
            invariant
                c <= band_list.channels@.len(),
                width > 0,
                count == enabled_among(band_list.channels@, c as nat),
                count <= c,
                line@ == channel_rows(band_list.channels@, width as nat, c as nat),
            decreases band_list.channels@.len() - c,
        {
            let ch = &band_list.channels[c];
            match ch.status {
                FrequencyStatus::Enabled => {
                    push_channel_cell(&mut line, ch);
                    count = count + 1;
                    if count % width == 0 {
                        line.append("\n  ");
                    }
                },
                FrequencyStatus::Disabled => {},
            }
            c = c + 1;
        }
        if count > 0 {
            output.append(band_list.band.string());
            output.append(":\n  ");
            output.append(line.as_str());
            output.append("\n\n");
        }
        b = b + 1;
    }
    output
}

/// Whether `band` admits the channel number `chan`.
pub fn is_legal_channel(band: WiFiBand, chan: u32) -> (r: bool)
    ensures
        r == legal_channel(band, chan as int),
{
    match band {
        WiFiBand::Band2GHz => 1 <= chan && chan <= 14,
        WiFiBand::Band5GHz => (34 <= chan && chan <= 64 && chan % 2 == 0) || (68 <= chan && chan
            <= 96 && chan % 4 == 0) || (100 <= chan && chan <= 144 && chan % 2 == 0) || (149
            <= chan && chan <= 161 && chan % 2 == 1) || (165 <= chan && chan <= 181 && chan % 4
            == 1) || (184 <= chan && chan <= 196 && chan % 4 == 0),
        WiFiBand::Band6GHz => chan == 2 || (1 <= chan && chan <= 233 && chan % 4 == 1),
        WiFiBand::Band60GHz => 1 <= chan && chan <= 6,
        WiFiBand::Unknown => false,
    }
}

/// The band and the frequency of a channel given by its number alone:
/// the 2.4 GHz band where it admits the number, else the 5 GHz band where
/// that admits it, and nothing where neither does.
pub open spec fn plain_channel(chan: u8) -> Option<(WiFiBand, u32)> {
    if legal_channel(WiFiBand::Band2GHz, chan as int) {
        Some((WiFiBand::Band2GHz, frequency_of(chan as int, WiFiBand::Band2GHz) as u32))
    } else if legal_channel(WiFiBand::Band5GHz, chan as int) {
        Some((WiFiBand::Band5GHz, frequency_of(chan as int, WiFiBand::Band5GHz) as u32))
    } else {
        None
    }
}

/// Finds the band and the frequency of a channel given by its number
/// alone.
pub fn resolve_channel(chan: u8) -> (r: Option<(WiFiBand, u32)>)
    ensures
        r == plain_channel(chan),
{
    if is_legal_channel(WiFiBand::Band2GHz, chan as u32) {
        Some((WiFiBand::Band2GHz, chan_to_frequency(chan as u32, WiFiBand::Band2GHz)))
    } else if is_legal_channel(WiFiBand::Band5GHz, chan as u32) {
        Some((WiFiBand::Band5GHz, chan_to_frequency(chan as u32, WiFiBand::Band5GHz)))
    } else {
        None
    }
}

} // verus!
