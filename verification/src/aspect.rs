//! Artists, albums and songs, and how they relate to single song entries.
//!
//! Every aspect knows which aspect a [`SongEntry`] belongs to ([`Music::of_entry`]),
//! whether an entry is one of its plays, exactly or ignoring case, and how
//! aspects are ordered: by artist name, then (for songs) by song name, then by
//! album name.

use core::cmp::Ordering;

use vstd::prelude::*;
use vstd::std_specs::cmp::PartialOrdSpecImpl;

use crate::entry::SongEntry;
use crate::text::{append_string, chars_lt, keys_lt, lemma_chars_lt_irreflexive, lemma_chars_lt_total, order_of, Order};

verus! {

/// Whether two strings are equal when compared case-insensitively with
/// Unicode case folding (the comparison that `unicase` performs).
pub uninterp spec fn unicase_eq(a: Seq<char>, b: Seq<char>) -> bool;

/// Case-insensitive string equality.
///
/// Trusted: calls `unicase::eq`, which compares the two strings after case
/// folding (ASCII folding when both are ASCII, Unicode case folding
/// otherwise). The contract names that result and claims that identical
/// strings compare equal and that the comparison is symmetric, which holds
/// because both sides are folded the same way and compared with `==`.
#[verifier::external_body]
pub(crate) fn eq_ignore_case(a: &str, b: &str) -> (r: bool)
    ensures
        r == unicase_eq(a@, b@),
        r == unicase_eq(b@, a@),
        a@ == b@ ==> r,
{
    unicase::eq(a, b)
}

/// Lexicographic order on order keys is irreflexive, asymmetric and total
/// on keys of the same length.
pub proof fn lemma_keys_lt_total(a: Seq<Seq<char>>, b: Seq<Seq<char>>)
    ensures
        !keys_lt(a, a),
        !(keys_lt(a, b) && keys_lt(b, a)),
        a.len() == b.len() && a != b ==> keys_lt(a, b) || keys_lt(b, a),
    decreases a.len(),
{
    if a.len() > 0 {
        lemma_chars_lt_irreflexive(a[0]);
        lemma_keys_lt_total(a.drop_first(), a.drop_first());
    }
    if a.len() > 0 && b.len() > 0 {
        lemma_chars_lt_total(a[0], b[0]);
        lemma_keys_lt_total(a.drop_first(), b.drop_first());
        if a[0] == b[0] && a != b && a.len() == b.len() {
            assert(a.drop_first() != b.drop_first()) by {
                if a.drop_first() == b.drop_first() {
                    assert(a =~= seq![a[0]] + a.drop_first());
                    assert(b =~= seq![b[0]] + b.drop_first());
                }
            }
        }
    } else if a.len() == 0 && b.len() == 0 {
        assert(a =~= b);
    }
}

/// Lexicographic order on order keys is transitive.
pub proof fn lemma_keys_lt_transitive(a: Seq<Seq<char>>, b: Seq<Seq<char>>, c: Seq<Seq<char>>)
    requires
        keys_lt(a, b),
        keys_lt(b, c),
    ensures
        keys_lt(a, c),
    decreases a.len(),
{
    if a.len() > 0 && b.len() > 0 && c.len() > 0 {
        if chars_lt(a[0], b[0]) && chars_lt(b[0], c[0]) {
            crate::text::lemma_chars_lt_transitive(a[0], b[0], c[0]);
        } else if a[0] == b[0] && b[0] == c[0] {
            lemma_keys_lt_transitive(a.drop_first(), b.drop_first(), c.drop_first());
        }
    }
}

/// Compares two order keys of the same length given as string slices.
fn order_keys(a: &[&str], b: &[&str]) -> (r: Order)
    requires
        a@.len() == b@.len(),
    ensures
        r == Order::Equal <==> key_of_strs(a@) == key_of_strs(b@),
        r == Order::Less <==> keys_lt(key_of_strs(a@), key_of_strs(b@)),
        r == Order::Greater <==> keys_lt(key_of_strs(b@), key_of_strs(a@)),
{
    let mut i: usize = 0;
    while i < a.len()
        invariant
            a@.len() == b@.len(),
            i <= a@.len(),
            key_of_strs(a@).subrange(0, i as int) == key_of_strs(b@).subrange(0, i as int),
        decreases a@.len() - i,
    {
        let o = order_of(a[i], b[i]);
        proof {
            lemma_keys_after_common_prefix(key_of_strs(a@), key_of_strs(b@), i as int);
            lemma_keys_lt_total(key_of_strs(a@), key_of_strs(b@));
        }
        match o {
            Order::Less => {
                proof {
                    let sa = key_of_strs(a@).subrange(i as int, a@.len() as int);
                    let sb = key_of_strs(b@).subrange(i as int, b@.len() as int);
                    assert(sa[0] == a@[i as int]@ && sb[0] == b@[i as int]@);
                    assert(key_of_strs(a@) != key_of_strs(b@)) by {
                        if key_of_strs(a@) == key_of_strs(b@) {
                            assert(key_of_strs(a@)[i as int] == key_of_strs(b@)[i as int]);
                        }
                    }
                }
                return Order::Less;
            },
            Order::Greater => {
                proof {
                    let sa = key_of_strs(a@).subrange(i as int, a@.len() as int);
                    let sb = key_of_strs(b@).subrange(i as int, b@.len() as int);
                    assert(sa[0] == a@[i as int]@ && sb[0] == b@[i as int]@);
                    lemma_chars_lt_total(a@[i as int]@, b@[i as int]@);
                    assert(key_of_strs(a@) != key_of_strs(b@)) by {
                        if key_of_strs(a@) == key_of_strs(b@) {
                            assert(key_of_strs(a@)[i as int] == key_of_strs(b@)[i as int]);
                        }
                    }
                    lemma_keys_after_common_prefix(key_of_strs(b@), key_of_strs(a@), i as int);
                }
                return Order::Greater;
            },
            Order::Equal => {},
        }
        i = i + 1;
        assert(key_of_strs(a@).subrange(0, i as int) =~= key_of_strs(a@).subrange(0, i - 1).push(a@[i - 1]@));
        assert(key_of_strs(b@).subrange(0, i as int) =~= key_of_strs(b@).subrange(0, i - 1).push(b@[i - 1]@));
    }
    proof {
        assert(key_of_strs(a@) =~= key_of_strs(a@).subrange(0, i as int));
        assert(key_of_strs(b@) =~= key_of_strs(b@).subrange(0, i as int));
        lemma_keys_lt_total(key_of_strs(a@), key_of_strs(b@));
    }
    Order::Equal
}

/// The order key made of the views of string slices.
pub open spec fn key_of_strs(s: Seq<&str>) -> Seq<Seq<char>> {
    Seq::new(s.len(), |i: int| s[i]@)
}

proof fn lemma_keys_after_common_prefix(a: Seq<Seq<char>>, b: Seq<Seq<char>>, i: int)
    requires
        0 <= i <= a.len(),
        i <= b.len(),
        a.subrange(0, i) == b.subrange(0, i),
    ensures
        keys_lt(a, b) == keys_lt(a.subrange(i, a.len() as int), b.subrange(i, b.len() as int)),
    decreases i,
{
    if i > 0 {
        assert(a[0] == a.subrange(0, i)[0]);
        assert(b[0] == b.subrange(0, i)[0]);
        assert(a.drop_first().subrange(0, i - 1) =~= a.subrange(0, i).drop_first());
        assert(b.drop_first().subrange(0, i - 1) =~= b.subrange(0, i).drop_first());
        lemma_chars_lt_irreflexive(a[0]);
        lemma_keys_after_common_prefix(a.drop_first(), b.drop_first(), i - 1);
        assert(a.drop_first().subrange(i - 1, a.len() - 1) =~= a.subrange(i, a.len() as int));
        assert(b.drop_first().subrange(i - 1, b.len() - 1) =~= b.subrange(i, b.len() as int));
    } else {
        assert(a.subrange(0, a.len() as int) =~= a);
        assert(b.subrange(0, b.len() as int) =~= b);
    }
}


/// The view of an artist: its name.
pub type ArtistView = Seq<char>;

/// The view of an album: (album name, artist name).
pub type AlbumView = (Seq<char>, Seq<char>);

/// The view of a song: (song name, album name, artist name).
pub type SongView = (Seq<char>, Seq<char>, Seq<char>);

/// The artist of a song entry.
pub open spec fn artist_of(e: SongEntry) -> ArtistView {
    e.artist@
}

/// The album of a song entry.
pub open spec fn album_of(e: SongEntry) -> AlbumView {
    (e.album@, e.artist@)
}

/// The song of a song entry.
pub open spec fn song_of(e: SongEntry) -> SongView {
    (e.track@, e.album@, e.artist@)
}

/// Implemented by [`Artist`], [`Album`] and [`Song`]: what is common to
/// functions that accept any of them.
pub trait Music: View + Sized {
    /// The aspect of this kind that a song entry belongs to.
    spec fn of_entry(entry: SongEntry) -> Self::V;

    /// Whether two aspects are the same when every name is compared ignoring case.
    spec fn same_ignoring_case(a: Self::V, b: Self::V) -> bool;

    /// The names by which aspects are ordered, most significant first.
    spec fn order_key(v: Self::V) -> Seq<Seq<char>>;

    /// The aspect's own name (artist, album or song name).
    spec fn name_of(v: Self::V) -> Seq<char>;

    /// How the aspect is displayed: `artist`, `artist - album` or
    /// `artist - song (album)`.
    spec fn display_of(v: Self::V) -> Seq<char>;

    /// Different aspects have different order keys, all of the same length.
    proof fn lemma_order_key_injective(a: Self::V, b: Self::V)
        ensures
            Self::order_key(a).len() == Self::order_key(b).len(),
            Self::order_key(a) == Self::order_key(b) ==> a == b,
    ;

    /// Creates the aspect of this kind that `entry` belongs to.
    fn from_entry(entry: &SongEntry) -> (r: Self)
        ensures
            r@ == Self::of_entry(*entry),
    ;

    /// Checks if `entry` is a play of this aspect.
    fn is_entry(&self, entry: &SongEntry) -> (r: bool)
        ensures
            r == (self@ == Self::of_entry(*entry)),
    ;

    /// Checks if `entry` is a play of this aspect, comparing names case-insensitively.
    fn is_entry_ignore_case(&self, entry: &SongEntry) -> (r: bool)
        ensures
            r == Self::same_ignoring_case(self@, Self::of_entry(*entry)),
    ;

    /// Returns the aspect's name (i.e. artist/album/song name).
    fn name(&self) -> (r: String)
        ensures
            r@ == Self::name_of(self@),
    ;

    /// Whether two aspects are the same.
    fn same_as(&self, other: &Self) -> (r: bool)
        ensures
            r == (self@ == other@),
    ;

    /// Whether this aspect comes strictly before `other`.
    fn comes_before(&self, other: &Self) -> (r: bool)
        ensures
            r == keys_lt(Self::order_key(self@), Self::order_key(other@)),
    ;

    /// A copy of the aspect.
    fn duplicate(&self) -> (r: Self)
        ensures
            r@ == self@,
    ;

    /// The aspect as displayed: `artist`, `artist - album` or `artist - song (album)`.
    fn display(&self) -> (r: String)
        ensures
            r@ == Self::display_of(self@),
    ;
}

/// Marks the aspects that contain songs: [`Artist`] and [`Album`].
pub trait HasSongs: Music {}

/// Marks the aspects that have an artist: [`Album`] and [`Song`].
pub trait HasArtist: Music {
    /// The name of the aspect's artist.
    spec fn artist_name_of(v: Self::V) -> Seq<char>;

    /// Returns a reference to the aspect's artist.
    fn artist(&self) -> (r: &Artist)
        ensures
            r@ == Self::artist_name_of(self@),
    ;
}

/// An artist.
///
/// Usually, you don't want to create this yourself, but rather use
/// [`find::artist`][crate::find::artist] to guarantee it's in the dataset.
#[derive(Clone, Debug, PartialEq, Eq, Hash)]
pub struct Artist {
    /// Name of the artist
    pub name: String,
}

/// An album.
///
/// Usually, you don't want to create this yourself, but rather use
/// [`find::album`][crate::find::album] to guarantee it's in the dataset.
#[derive(Clone, Debug, PartialEq, Eq, Hash)]
pub struct Album {
    /// Name of the album
    pub name: String,
    /// Artist of the album
    pub artist: Artist,
}

/// A song (a track of one album).
///
/// Usually, you don't want to create this yourself, but rather use
/// [`find::song_from_album`][crate::find::song_from_album] to guarantee it's in the dataset.
#[derive(Clone, Debug, PartialEq, Eq, Hash)]
pub struct Song {
    /// Name of the song
    pub name: String,
    /// The album this song is from
    pub album: Album,
}

impl View for Artist {
    type V = ArtistView;

    open spec fn view(&self) -> ArtistView {
        self.name@
    }
}

impl View for Album {
    type V = AlbumView;

    open spec fn view(&self) -> AlbumView {
        (self.name@, self.artist.name@)
    }
}

impl View for Song {
    type V = SongView;

    open spec fn view(&self) -> SongView {
        (self.name@, self.album.name@, self.album.artist.name@)
    }
}

fn copy_string(s: &String) -> (r: String)
    ensures
        r@ == s@,
{
    s.clone()
}

impl Artist {
    /// Creates an artist of the given name.
    pub fn new(artist_name: &str) -> (r: Artist)
        ensures
            r@ == artist_name@,
    {
        Artist { name: artist_name.to_owned() }
    }
}

impl Album {
    /// Creates an album of the given name and artist.
    pub fn new(album_name: &str, artist_name: &str) -> (r: Album)
        ensures
            r@ == (album_name@, artist_name@),
    {
        Album { name: album_name.to_owned(), artist: Artist::new(artist_name) }
    }
}

impl Song {
    /// Creates a song of the given name, album and artist.
    pub fn new(song_name: &str, album_name: &str, artist_name: &str) -> (r: Song)
        ensures
            r@ == (song_name@, album_name@, artist_name@),
    {
        Song { name: song_name.to_owned(), album: Album::new(album_name, artist_name) }
    }

    /// Checks if `entry` is a play of a song of this name by this artist,
    /// whatever the album, comparing both names case-insensitively.
    pub fn is_entry_ignore_album_and_case(&self, entry: &SongEntry) -> (r: bool)
        ensures
            r == (unicase_eq(self.album.artist.name@, entry.artist@) && unicase_eq(self.name@, entry.track@)),
            r == (unicase_eq(entry.artist@, self.album.artist.name@) && unicase_eq(entry.track@, self.name@)),
    {
        eq_ignore_case(self.album.artist.name.as_str(), entry.artist.as_str())
            && eq_ignore_case(self.name.as_str(), entry.track.as_str())
    }
}

impl Music for Artist {
    open spec fn of_entry(entry: SongEntry) -> ArtistView {
        artist_of(entry)
    }

    open spec fn same_ignoring_case(a: ArtistView, b: ArtistView) -> bool {
        unicase_eq(a, b)
    }

    open spec fn order_key(v: ArtistView) -> Seq<Seq<char>> {
        seq![v]
    }

    open spec fn name_of(v: ArtistView) -> Seq<char> {
        v
    }

    open spec fn display_of(v: ArtistView) -> Seq<char> {
        v
    }

    proof fn lemma_order_key_injective(a: ArtistView, b: ArtistView) {
        if seq![a] == seq![b] {
            assert(seq![a][0] == seq![b][0]);
        }
    }

    fn from_entry(entry: &SongEntry) -> (r: Artist) {
        Artist { name: copy_string(&entry.artist) }
    }

    fn is_entry(&self, entry: &SongEntry) -> (r: bool) {
        entry.artist == self.name
    }

    fn is_entry_ignore_case(&self, entry: &SongEntry) -> (r: bool) {
        eq_ignore_case(self.name.as_str(), entry.artist.as_str())
    }

    fn name(&self) -> (r: String) {
        copy_string(&self.name)
    }

    fn same_as(&self, other: &Artist) -> (r: bool) {
        self.name == other.name
    }

    fn comes_before(&self, other: &Artist) -> (r: bool) {
        let a = [self.name.as_str()];
        let b = [other.name.as_str()];
        assert(key_of_strs(a@) =~= seq![self@]);
        assert(key_of_strs(b@) =~= seq![other@]);
        let o = order_keys(&a, &b);
        match o {
            Order::Less => true,
            _ => false,
        }
    }

    fn duplicate(&self) -> (r: Artist) {
        Artist { name: copy_string(&self.name) }
    }

    fn display(&self) -> (r: String) {
        copy_string(&self.name)
    }
}

impl HasSongs for Artist {}

impl Music for Album {
    open spec fn of_entry(entry: SongEntry) -> AlbumView {
        album_of(entry)
    }

    open spec fn same_ignoring_case(a: AlbumView, b: AlbumView) -> bool {
        unicase_eq(a.1, b.1) && unicase_eq(a.0, b.0)
    }

    open spec fn order_key(v: AlbumView) -> Seq<Seq<char>> {
        seq![v.1, v.0]
    }

    open spec fn name_of(v: AlbumView) -> Seq<char> {
        v.0
    }

    open spec fn display_of(v: AlbumView) -> Seq<char> {
        v.1 + " - "@ + v.0
    }

    proof fn lemma_order_key_injective(a: AlbumView, b: AlbumView) {
        if seq![a.1, a.0] == seq![b.1, b.0] {
            assert(seq![a.1, a.0][0] == seq![b.1, b.0][0]);
            assert(seq![a.1, a.0][1] == seq![b.1, b.0][1]);
        }
    }

    fn from_entry(entry: &SongEntry) -> (r: Album) {
        Album { name: copy_string(&entry.album), artist: Artist::from_entry(entry) }
    }

    fn is_entry(&self, entry: &SongEntry) -> (r: bool) {
        self.artist.is_entry(entry) && entry.album == self.name
    }

    fn is_entry_ignore_case(&self, entry: &SongEntry) -> (r: bool) {
        self.artist.is_entry_ignore_case(entry) && eq_ignore_case(self.name.as_str(), entry.album.as_str())
    }

    fn name(&self) -> (r: String) {
        copy_string(&self.name)
    }

    fn same_as(&self, other: &Album) -> (r: bool) {
        self.artist.name == other.artist.name && self.name == other.name
    }

    fn comes_before(&self, other: &Album) -> (r: bool) {
        let a = [self.artist.name.as_str(), self.name.as_str()];
        let b = [other.artist.name.as_str(), other.name.as_str()];
        assert(key_of_strs(a@) =~= seq![self@.1, self@.0]);
        assert(key_of_strs(b@) =~= seq![other@.1, other@.0]);
        let o = order_keys(&a, &b);
        match o {
            Order::Less => true,
            _ => false,
        }
    }

    fn duplicate(&self) -> (r: Album) {
        Album { name: copy_string(&self.name), artist: self.artist.duplicate() }
    }

    fn display(&self) -> (r: String) {
        let mut r = copy_string(&self.artist.name);
        append_string(&mut r, &" - ".to_owned());
        append_string(&mut r, &self.name);
        r
    }
}

impl HasSongs for Album {}

impl HasArtist for Album {
    open spec fn artist_name_of(v: AlbumView) -> Seq<char> {
        v.1
    }

    fn artist(&self) -> (r: &Artist) {
        &self.artist
    }
}

impl Music for Song {
    open spec fn of_entry(entry: SongEntry) -> SongView {
        song_of(entry)
    }

    open spec fn same_ignoring_case(a: SongView, b: SongView) -> bool {
        unicase_eq(a.2, b.2) && unicase_eq(a.1, b.1) && unicase_eq(a.0, b.0)
    }

    open spec fn order_key(v: SongView) -> Seq<Seq<char>> {
        seq![v.2, v.0, v.1]
    }

    open spec fn name_of(v: SongView) -> Seq<char> {
        v.0
    }

    open spec fn display_of(v: SongView) -> Seq<char> {
        v.2 + " - "@ + v.0 + " ("@ + v.1 + ")"@
    }

    proof fn lemma_order_key_injective(a: SongView, b: SongView) {
        if seq![a.2, a.0, a.1] == seq![b.2, b.0, b.1] {
            assert(seq![a.2, a.0, a.1][0] == seq![b.2, b.0, b.1][0]);
            assert(seq![a.2, a.0, a.1][1] == seq![b.2, b.0, b.1][1]);
            assert(seq![a.2, a.0, a.1][2] == seq![b.2, b.0, b.1][2]);
        }
    }

    fn from_entry(entry: &SongEntry) -> (r: Song) {
        Song { name: copy_string(&entry.track), album: Album::from_entry(entry) }
    }

    fn is_entry(&self, entry: &SongEntry) -> (r: bool) {
        self.album.is_entry(entry) && entry.track == self.name
    }

    fn is_entry_ignore_case(&self, entry: &SongEntry) -> (r: bool) {
        self.album.is_entry_ignore_case(entry) && eq_ignore_case(self.name.as_str(), entry.track.as_str())
    }

    fn name(&self) -> (r: String) {
        copy_string(&self.name)
    }

    fn same_as(&self, other: &Song) -> (r: bool) {
        self.album.same_as(&other.album) && self.name == other.name
    }

    fn comes_before(&self, other: &Song) -> (r: bool) {
        let a = [self.album.artist.name.as_str(), self.name.as_str(), self.album.name.as_str()];
        let b = [other.album.artist.name.as_str(), other.name.as_str(), other.album.name.as_str()];
        assert(key_of_strs(a@) =~= seq![self@.2, self@.0, self@.1]);
        assert(key_of_strs(b@) =~= seq![other@.2, other@.0, other@.1]);
        let o = order_keys(&a, &b);
        match o {
            Order::Less => true,
            _ => false,
        }
    }

    fn duplicate(&self) -> (r: Song) {
        Song { name: copy_string(&self.name), album: self.album.duplicate() }
    }

    fn display(&self) -> (r: String) {
        let mut r = copy_string(&self.album.artist.name);
        append_string(&mut r, &" - ".to_owned());
        append_string(&mut r, &self.name);
        append_string(&mut r, &" (".to_owned());
        append_string(&mut r, &self.album.name);
        append_string(&mut r, &")".to_owned());
        r
    }
}

impl HasArtist for Song {
    open spec fn artist_name_of(v: SongView) -> Seq<char> {
        v.2
    }

    fn artist(&self) -> (r: &Artist) {
        &self.album.artist
    }
}


/// The order of two aspects as a std [`Ordering`].
pub open spec fn ordering_of_keys(a: Seq<Seq<char>>, b: Seq<Seq<char>>) -> Ordering {
    if a == b {
        Ordering::Equal
    } else if keys_lt(a, b) {
        Ordering::Less
    } else {
        Ordering::Greater
    }
}

pub(crate) fn ordering_between<A: Music>(a: &A, b: &A) -> (r: Ordering)
    ensures
        r == ordering_of_keys(A::order_key(a@), A::order_key(b@)),
{
    proof {
        A::lemma_order_key_injective(a@, b@);
        lemma_keys_lt_total(A::order_key(a@), A::order_key(b@));
    }
    if a.same_as(b) {
        Ordering::Equal
    } else if a.comes_before(b) {
        Ordering::Less
    } else {
        Ordering::Greater
    }
}

/// Artists are ordered by name.
impl PartialOrd for Artist {
    fn partial_cmp(&self, other: &Artist) -> (r: Option<Ordering>) {
        Some(ordering_between(self, other))
    }
}

impl PartialOrdSpecImpl for Artist {
    open spec fn obeys_partial_cmp_spec() -> bool {
        true
    }

    open spec fn partial_cmp_spec(&self, other: &Artist) -> Option<Ordering> {
        Some(ordering_of_keys(Artist::order_key(self@), Artist::order_key(other@)))
    }
}

/// Albums are ordered by artist name, then by album name.
impl PartialOrd for Album {
    fn partial_cmp(&self, other: &Album) -> (r: Option<Ordering>) {
        Some(ordering_between(self, other))
    }
}

impl PartialOrdSpecImpl for Album {
    open spec fn obeys_partial_cmp_spec() -> bool {
        true
    }

    open spec fn partial_cmp_spec(&self, other: &Album) -> Option<Ordering> {
        Some(ordering_of_keys(Album::order_key(self@), Album::order_key(other@)))
    }
}

/// Songs are ordered by artist name, then by song name, then by album name.
impl PartialOrd for Song {
    fn partial_cmp(&self, other: &Song) -> (r: Option<Ordering>) {
        Some(ordering_between(self, other))
    }
}

impl PartialOrdSpecImpl for Song {
    open spec fn obeys_partial_cmp_spec() -> bool {
        true
    }

    open spec fn partial_cmp_spec(&self, other: &Song) -> Option<Ordering> {
        Some(ordering_of_keys(Song::order_key(self@), Song::order_key(other@)))
    }
}

} // verus!
