//! Parsing of `/proc/<pid>/smaps`-style text: mapping header lines and the
//! per-mapping counters that follow them.
use crate::text::{
    chars_eq_str, copy_range, parse_u64_range, parse_uint, run_end, span_end, split_chars, split_on,
    parse_u64, str_chars, string_from_range, trim, trim_bounds, trim_chars, views, CharClass,
};
use vstd::prelude::*;

verus! {

/// Access permissions of a mapping, from the `rwxp` column.
#[derive(Debug, PartialEq, Eq, Clone, Copy)]
pub struct Permissions {
    pub read: bool,
    pub write: bool,
    pub execute: bool,
    pub shared: bool,
    pub private: bool,
}

impl Default for Permissions {
    fn default() -> (r: Self)
        ensures
            r == (Permissions { read: false, write: false, execute: false, shared: false, private: false }),
    {
        Permissions { read: false, write: false, execute: false, shared: false, private: false }
    }
}

/// The permissions that a permission column spells: each flag is set when its letter occurs.
pub open spec fn perms_of(s: Seq<char>) -> Permissions {
    Permissions {
        read: s.contains('r'),
        write: s.contains('w'),
        execute: s.contains('x'),
        shared: s.contains('s'),
        private: s.contains('p'),
    }
}

/// Law of permission columns: each flag is set exactly when its letter
/// occurs in the column: `r` read, `w` write, `x` execute, `s` shared, `p`
/// private.
pub proof fn law_permission_flags_follow_letters(s: Seq<char>)
    ensures
        perms_of(s).read <==> exists|i: int| 0 <= i < s.len() && s[i] == 'r',
        perms_of(s).write <==> exists|i: int| 0 <= i < s.len() && s[i] == 'w',
        perms_of(s).execute <==> exists|i: int| 0 <= i < s.len() && s[i] == 'x',
        perms_of(s).shared <==> exists|i: int| 0 <= i < s.len() && s[i] == 's',
        perms_of(s).private <==> exists|i: int| 0 <= i < s.len() && s[i] == 'p',
{
}

impl Permissions {
    pub fn read(&mut self, v: bool)
        ensures
            *final(self) == (Permissions { read: v, ..*old(self) }),
    {
        self.read = v;
    }

    pub fn write(&mut self, v: bool)
        ensures
            *final(self) == (Permissions { write: v, ..*old(self) }),
    {
        self.write = v;
    }

    pub fn execute(&mut self, v: bool)
        ensures
            *final(self) == (Permissions { execute: v, ..*old(self) }),
    {
        self.execute = v;
    }

    pub fn shared(&mut self, v: bool)
        ensures
            *final(self) == (Permissions { shared: v, ..*old(self) }),
    {
        self.shared = v;
    }

    pub fn private(&mut self, v: bool)
        ensures
            *final(self) == (Permissions { private: v, ..*old(self) }),
    {
        self.private = v;
    }

    /// The permissions spelled by `v[lo..hi]`; other characters are ignored.
    pub fn from_range(v: &Vec<char>, lo: usize, hi: usize) -> (r: Permissions)
        requires
            lo <= hi <= v.len(),
        ensures
            r == perms_of(v@.subrange(lo as int, hi as int)),
    {
        let mut perms = Permissions::default();
        let mut i = lo;
        assert(v@.subrange(lo as int, lo as int) =~= Seq::<char>::empty());
        while i < hi
            invariant
                lo <= i <= hi <= v.len(),
                perms == perms_of(v@.subrange(lo as int, i as int)),
            decreases hi - i,
        {
            let c = v[i];
            let ghost before = v@.subrange(lo as int, i as int);
            assert(v@.subrange(lo as int, i + 1) =~= before.push(c));
            proof {
                lemma_contains_push_char(before, c);
            }
            if c == 'r' {
                perms.read(true);
            } else if c == 'w' {
                perms.write(true);
            } else if c == 'x' {
                perms.execute(true);
            } else if c == 's' {
                perms.shared(true);
            } else if c == 'p' {
                perms.private(true);
            }
            i = i + 1;
        }
        perms
    }

    /// The permissions spelled by `s`; other characters are ignored.
    pub fn from_str(s: &str) -> (r: Permissions)
        ensures
            r == perms_of(s@),
    {
        let v = str_chars(s);
        assert(v@.subrange(0, v.len() as int) =~= v@);
        Self::from_range(&v, 0, v.len())
    }
}

pub proof fn lemma_contains_push_char(s: Seq<char>, c: char)
    ensures
        forall|x: char| #[trigger] s.push(c).contains(x) == (s.contains(x) || x == c),
{
    assert forall|x: char| #[trigger] s.push(c).contains(x) == (s.contains(x) || x == c) by {
        if s.push(c).contains(x) {
            let j = choose|j: int| 0 <= j < s.push(c).len() && s.push(c)[j] == x;
            if j < s.len() {
                assert(s[j] == x);
            }
        }
        if s.contains(x) {
            let j = choose|j: int| 0 <= j < s.len() && s[j] == x;
            assert(s.push(c)[j] == x);
        }
        if x == c {
            assert(s.push(c)[s.len() as int] == x);
        }
    }
}

pub proof fn lemma_contains_push_word(s: Seq<Seq<char>>, w: Seq<char>)
    ensures
        forall|x: Seq<char>| #[trigger] s.push(w).contains(x) == (s.contains(x) || x == w),
{
    assert forall|x: Seq<char>| #[trigger] s.push(w).contains(x) == (s.contains(x) || x == w) by {
        if s.push(w).contains(x) {
            let j = choose|j: int| 0 <= j < s.push(w).len() && s.push(w)[j] == x;
            if j < s.len() {
                assert(s[j] == x);
            }
        }
        if s.contains(x) {
            let j = choose|j: int| 0 <= j < s.len() && s[j] == x;
            assert(s.push(w)[j] == x);
        }
        if x == w {
            assert(s.push(w)[s.len() as int] == x);
        }
    }
}

/// Kernel flags of a mapping, from the `VmFlags` line.
#[derive(Debug, PartialEq, Eq, Clone, Copy)]
pub struct VmFlags {
    pub rd: bool,
    pub wr: bool,
    pub ex: bool,
    pub sh: bool,
    pub mr: bool,
    pub mw: bool,
    pub me: bool,
    pub ms: bool,
    pub gd: bool,
    pub pf: bool,
    pub dw: bool,
    pub lo: bool,
    pub io: bool,
    pub sr: bool,
    pub rr: bool,
    pub dc: bool,
    pub de: bool,
    pub ac: bool,
    pub nr: bool,
    pub ht: bool,
    pub sf: bool,
    pub nl: bool,
    pub ar: bool,
    pub wf: bool,
    pub dd: bool,
    pub sd: bool,
    pub mm: bool,
    pub hg: bool,
    pub nh: bool,
    pub mg: bool,
    pub um: bool,
    pub uw: bool,
}

impl Default for VmFlags {
    fn default() -> (r: Self)
        ensures
            r == no_vm_flags(),
    {
        VmFlags {
            rd: false,
            wr: false,
            ex: false,
            sh: false,
            mr: false,
            mw: false,
            me: false,
            ms: false,
            gd: false,
            pf: false,
            dw: false,
            lo: false,
            io: false,
            sr: false,
            rr: false,
            dc: false,
            de: false,
            ac: false,
            nr: false,
            ht: false,
            sf: false,
            nl: false,
            ar: false,
            wf: false,
            dd: false,
            sd: false,
            mm: false,
            hg: false,
            nh: false,
            mg: false,
            um: false,
            uw: false,
        }
    }
}

/// The flags value with every flag clear.
pub open spec fn no_vm_flags() -> VmFlags {
    VmFlags {
        rd: false,
        wr: false,
        ex: false,
        sh: false,
        mr: false,
        mw: false,
        me: false,
        ms: false,
        gd: false,
        pf: false,
        dw: false,
        lo: false,
        io: false,
        sr: false,
        rr: false,
        dc: false,
        de: false,
        ac: false,
        nr: false,
        ht: false,
        sf: false,
        nl: false,
        ar: false,
        wf: false,
        dd: false,
        sd: false,
        mm: false,
        hg: false,
        nh: false,
        mg: false,
        um: false,
        uw: false,
    }
}

/// The flags that a list of flag words names: a flag is set when its
/// two-letter name is among the words; unknown words are ignored.
pub open spec fn vm_flags_of(words: Seq<Seq<char>>) -> VmFlags {
    VmFlags {
        rd: words.contains("rd"@),
        wr: words.contains("wr"@),
        ex: words.contains("ex"@),
        sh: words.contains("sh"@),
        mr: words.contains("mr"@),
        mw: words.contains("mw"@),
        me: words.contains("me"@),
        ms: words.contains("ms"@),
        gd: words.contains("gd"@),
        pf: words.contains("pf"@),
        dw: words.contains("dw"@),
        lo: words.contains("lo"@),
        io: words.contains("io"@),
        sr: words.contains("sr"@),
        rr: words.contains("rr"@),
        dc: words.contains("dc"@),
        de: words.contains("de"@),
        ac: words.contains("ac"@),
        nr: words.contains("nr"@),
        ht: words.contains("ht"@),
        sf: words.contains("sf"@),
        nl: words.contains("nl"@),
        ar: words.contains("ar"@),
        wf: words.contains("wf"@),
        dd: words.contains("dd"@),
        sd: words.contains("sd"@),
        mm: words.contains("mm"@),
        hg: words.contains("hg"@),
        nh: words.contains("nh"@),
        mg: words.contains("mg"@),
        um: words.contains("um"@),
        uw: words.contains("uw"@),
    }
}

/// The flags named by the words of a `VmFlags` value, split at single spaces.
pub open spec fn vm_flags_spec(s: Seq<char>) -> VmFlags {
    vm_flags_of(split_on(s, ' '))
}

/// `flags` with the flag named by `w` set, if `w` names one.
pub open spec fn vm_flags_step(flags: VmFlags, w: Seq<char>) -> VmFlags {
    VmFlags {
        rd: flags.rd || w == "rd"@,
        wr: flags.wr || w == "wr"@,
        ex: flags.ex || w == "ex"@,
        sh: flags.sh || w == "sh"@,
        mr: flags.mr || w == "mr"@,
        mw: flags.mw || w == "mw"@,
        me: flags.me || w == "me"@,
        ms: flags.ms || w == "ms"@,
        gd: flags.gd || w == "gd"@,
        pf: flags.pf || w == "pf"@,
        dw: flags.dw || w == "dw"@,
        lo: flags.lo || w == "lo"@,
        io: flags.io || w == "io"@,
        sr: flags.sr || w == "sr"@,
        rr: flags.rr || w == "rr"@,
        dc: flags.dc || w == "dc"@,
        de: flags.de || w == "de"@,
        ac: flags.ac || w == "ac"@,
        nr: flags.nr || w == "nr"@,
        ht: flags.ht || w == "ht"@,
        sf: flags.sf || w == "sf"@,
        nl: flags.nl || w == "nl"@,
        ar: flags.ar || w == "ar"@,
        wf: flags.wf || w == "wf"@,
        dd: flags.dd || w == "dd"@,
        sd: flags.sd || w == "sd"@,
        mm: flags.mm || w == "mm"@,
        hg: flags.hg || w == "hg"@,
        nh: flags.nh || w == "nh"@,
        mg: flags.mg || w == "mg"@,
        um: flags.um || w == "um"@,
        uw: flags.uw || w == "uw"@,
    }
}

pub proof fn lemma_vm_flags_push(s: Seq<Seq<char>>, w: Seq<char>)
    ensures
        vm_flags_of(s.push(w)) == vm_flags_step(vm_flags_of(s), w),
{
    lemma_contains_push_word(s, w);
}

/// The order of the words of a `VmFlags` value does not matter: two values
/// naming the same words set the same flags.
pub proof fn lemma_vm_flags_order_independent(a: Seq<char>, b: Seq<char>)
    requires
        forall|w: Seq<char>| split_on(a, ' ').contains(w) <==> split_on(b, ' ').contains(w),
    ensures
        vm_flags_spec(a) == vm_flags_spec(b),
{
}

/// `flags` with the flag named by `w` set, if `w` names one.
pub fn add_vm_flag_word(flags: VmFlags, w: &Vec<char>) -> (r: VmFlags)
    ensures
        r == vm_flags_step(flags, w@),
{
    let rd = flags.rd || chars_eq_str(w, "rd");
    let wr = flags.wr || chars_eq_str(w, "wr");
    let ex = flags.ex || chars_eq_str(w, "ex");
    let sh = flags.sh || chars_eq_str(w, "sh");
    let mr = flags.mr || chars_eq_str(w, "mr");
    let mw = flags.mw || chars_eq_str(w, "mw");
    let me = flags.me || chars_eq_str(w, "me");
    let ms = flags.ms || chars_eq_str(w, "ms");
    let gd = flags.gd || chars_eq_str(w, "gd");
    let pf = flags.pf || chars_eq_str(w, "pf");
    let dw = flags.dw || chars_eq_str(w, "dw");
    let lo = flags.lo || chars_eq_str(w, "lo");
    let io = flags.io || chars_eq_str(w, "io");
    let sr = flags.sr || chars_eq_str(w, "sr");
    let rr = flags.rr || chars_eq_str(w, "rr");
    let dc = flags.dc || chars_eq_str(w, "dc");
    let de = flags.de || chars_eq_str(w, "de");
    let ac = flags.ac || chars_eq_str(w, "ac");
    let nr = flags.nr || chars_eq_str(w, "nr");
    let ht = flags.ht || chars_eq_str(w, "ht");
    let sf = flags.sf || chars_eq_str(w, "sf");
    let nl = flags.nl || chars_eq_str(w, "nl");
    let ar = flags.ar || chars_eq_str(w, "ar");
    let wf = flags.wf || chars_eq_str(w, "wf");
    let dd = flags.dd || chars_eq_str(w, "dd");
    let sd = flags.sd || chars_eq_str(w, "sd");
    let mm = flags.mm || chars_eq_str(w, "mm");
    let hg = flags.hg || chars_eq_str(w, "hg");
    let nh = flags.nh || chars_eq_str(w, "nh");
    let mg = flags.mg || chars_eq_str(w, "mg");
    let um = flags.um || chars_eq_str(w, "um");
    let uw = flags.uw || chars_eq_str(w, "uw");
    VmFlags {
        rd,
        wr,
        ex,
        sh,
        mr,
        mw,
        me,
        ms,
        gd,
        pf,
        dw,
        lo,
        io,
        sr,
        rr,
        dc,
        de,
        ac,
        nr,
        ht,
        sf,
        nl,
        ar,
        wf,
        dd,
        sd,
        mm,
        hg,
        nh,
        mg,
        um,
        uw,
    }
}

impl VmFlags {
    /// The flags named by the space-separated words of `v`.
    pub fn from_chars(v: &Vec<char>) -> (r: VmFlags)
        ensures
            r == vm_flags_spec(v@),
    {
        let words = split_chars(v, ' ');
        let mut flags = VmFlags::default();
        let mut i: usize = 0;
        assert(views(words@).take(0) =~= Seq::<Seq<char>>::empty());
        while i < words.len()
            invariant
                i <= words.len(),
                flags == vm_flags_of(views(words@).take(i as int)),
            decreases words.len() - i,
        {
            let w = &words[i];
            proof {
                assert(views(words@).take(i + 1) =~= views(words@).take(i as int).push(w@));
                lemma_vm_flags_push(views(words@).take(i as int), w@);
            }
            flags = add_vm_flag_word(flags, w);
            i = i + 1;
        }
        assert(views(words@).take(words.len() as int) =~= views(words@));
        flags
    }

    /// The flags named by the space-separated words of `s`.
    pub fn from_str(s: &str) -> (r: VmFlags)
        ensures
            r == vm_flags_spec(s@),
    {
        let v = str_chars(s);
        Self::from_chars(&v)
    }
}


/// Device numbers of a mapping's backing file.
#[derive(Debug, PartialEq, Eq, Clone, Copy)]
pub struct Device {
    pub major: u64,
    pub minor: u64,
}

impl Default for Device {
    fn default() -> (r: Self)
        ensures
            r == (Device { major: 0, minor: 0 }),
    {
        Device { major: 0, minor: 0 }
    }
}

/// One header line of `/proc/<pid>/maps` or `smaps`.
#[derive(Debug, PartialEq, Eq, Clone)]
pub struct Mapping {
    pub start: u64,
    pub end: u64,
    pub perms: Permissions,
    pub offset: usize,
    pub device: Device,
    pub inode: u64,
    pub pathname: Option<String>,
}

/// A mapping header, with its path name as a character sequence.
pub ghost struct MappingView {
    pub start: u64,
    pub end: u64,
    pub perms: Permissions,
    pub offset: usize,
    pub device: Device,
    pub inode: u64,
    pub pathname: Option<Seq<char>>,
}

impl View for Mapping {
    type V = MappingView;

    open spec fn view(&self) -> MappingView {
        MappingView {
            start: self.start,
            end: self.end,
            perms: self.perms,
            offset: self.offset,
            device: self.device,
            inode: self.inode,
            pathname: match self.pathname {
                Some(p) => Some(p@),
                None => None,
            },
        }
    }
}

impl Default for Mapping {
    fn default() -> (r: Self)
        ensures
            r@ == empty_mapping(),
    {
        Mapping {
            start: 0,
            end: 0,
            perms: Permissions::default(),
            offset: 0,
            device: Device::default(),
            inode: 0,
            pathname: None,
        }
    }
}

/// The all-zero mapping header without a path name.
pub open spec fn empty_mapping() -> MappingView {
    MappingView {
        start: 0,
        end: 0,
        perms: Permissions { read: false, write: false, execute: false, shared: false, private: false },
        offset: 0,
        device: Device { major: 0, minor: 0 },
        inode: 0,
        pathname: None,
    }
}

/// Where the fields of a trimmed header line begin and end: the line reads
/// `start-end perms offset major:minor inode [pathname]`, each field the
/// longest run of its character class and the gaps runs of white space.
pub ghost struct HeaderLayout {
    pub a1: int,
    pub b0: int,
    pub b1: int,
    pub p0: int,
    pub p1: int,
    pub o0: int,
    pub o1: int,
    pub m0: int,
    pub m1: int,
    pub n0: int,
    pub n1: int,
    pub i0: int,
    pub i1: int,
    pub r0: int,
}

pub open spec fn header_layout(t: Seq<char>) -> HeaderLayout {
    let a1 = span_end(t, 0, CharClass::LowerHex);
    let b0 = a1 + 1;
    let b1 = span_end(t, b0, CharClass::LowerHex);
    let p0 = span_end(t, b1, CharClass::Space);
    let p1 = span_end(t, p0, CharClass::Permission);
    let o0 = span_end(t, p1, CharClass::Space);
    let o1 = span_end(t, o0, CharClass::LowerHex);
    let m0 = span_end(t, o1, CharClass::Space);
    let m1 = span_end(t, m0, CharClass::LowerHex);
    let n0 = m1 + 1;
    let n1 = span_end(t, n0, CharClass::LowerHex);
    let i0 = span_end(t, n1, CharClass::Space);
    let i1 = span_end(t, i0, CharClass::Digit);
    let r0 = span_end(t, i1, CharClass::Space);
    HeaderLayout { a1, b0, b1, p0, p1, o0, o1, m0, m1, n0, n1, i0, i1, r0 }
}

/// The header grammar matches `t`: every field and gap is non-empty, `-` and
/// `:` stand where they belong, and a path name, if any, follows white space
/// and holds no line feed.
pub open spec fn header_shape_ok(t: Seq<char>, l: HeaderLayout) -> bool {
    &&& 0 < l.a1 < t.len()
    &&& t[l.a1] == '-'
    &&& l.b0 < l.b1 < l.p0 < l.p1 < l.o0 < l.o1 < l.m0 < l.m1 < t.len()
    &&& t[l.m1] == ':'
    &&& l.n0 < l.n1 < l.i0 < l.i1
    &&& (l.i1 == t.len() || (l.i1 < l.r0 && !t.subrange(l.r0, t.len() as int).contains('\n')))
}

/// The hexadecimal field `t[lo..hi]`, when it fits in `max`.
pub open spec fn hex_field(t: Seq<char>, lo: int, hi: int, max: int) -> Option<nat> {
    parse_uint(t.subrange(lo, hi), 16, max)
}

/// What a header line holds: the line is trimmed, then read by the header
/// grammar; the numbers are hexadecimal but for the decimal inode, and each
/// must fit its type.
pub open spec fn mapping_spec(s: Seq<char>) -> Option<MappingView> {
    let t = trim(s);
    let l = header_layout(t);
    if header_shape_ok(t, l) {
        let start = hex_field(t, 0, l.a1, u64::MAX as int);
        let end = hex_field(t, l.b0, l.b1, u64::MAX as int);
        let offset = hex_field(t, l.o0, l.o1, usize::MAX as int);
        let major = hex_field(t, l.m0, l.m1, u64::MAX as int);
        let minor = hex_field(t, l.n0, l.n1, u64::MAX as int);
        let inode = parse_uint(t.subrange(l.i0, l.i1), 10, u64::MAX as int);
        if start is Some && end is Some && offset is Some && major is Some && minor is Some
            && inode is Some {
            Some(
                MappingView {
                    start: start.unwrap() as u64,
                    end: end.unwrap() as u64,
                    perms: perms_of(t.subrange(l.p0, l.p1)),
                    offset: offset.unwrap() as usize,
                    device: Device { major: major.unwrap() as u64, minor: minor.unwrap() as u64 },
                    inode: inode.unwrap() as u64,
                    pathname: if l.i1 == t.len() {
                        None
                    } else {
                        Some(t.subrange(l.r0, t.len() as int))
                    },
                },
            )
        } else {
            None
        }
    } else {
        None
    }
}

/// Whether `v[lo..hi]` holds the character `c`.
pub fn range_contains(v: &Vec<char>, lo: usize, hi: usize, c: char) -> (r: bool)
    requires
        lo <= hi <= v.len(),
    ensures
        r == v@.subrange(lo as int, hi as int).contains(c),
{
    let mut i = lo;
    while i < hi
        invariant
            lo <= i <= hi <= v.len(),
            forall|j: int| lo <= j < i ==> #[trigger] v@[j] != c,
        decreases hi - i,
    {
        if v[i] == c {
            assert(v@.subrange(lo as int, hi as int)[i - lo] == c);
            return true;
        }
        i = i + 1;
    }
    assert forall|j: int| 0 <= j < hi - lo implies #[trigger] v@.subrange(lo as int, hi as int)[j]
        != c by {
        assert(v@.subrange(lo as int, hi as int)[j] == v@[lo + j]);
    }
    false
}

/// `t[lo..hi]` read as a hexadecimal `usize`.
fn parse_usize_hex(t: &Vec<char>, lo: usize, hi: usize) -> (r: Option<usize>)
    requires
        lo <= hi <= t.len(),
    ensures
        match r {
            Some(x) => hex_field(t@, lo as int, hi as int, usize::MAX as int) == Some(x as nat),
            None => hex_field(t@, lo as int, hi as int, usize::MAX as int) is None,
        },
{
    match parse_u64_range(t, lo, hi, 16) {
        Some(x) => {
            if x <= usize::MAX as u64 {
                Some(x as usize)
            } else {
                None
            }
        },
        None => None,
    }
}

impl Mapping {
    /// Reads a header line of `/proc/<pid>/maps`; `None` when the line does not
    /// have the header's shape or a number does not fit its type.
    pub fn from_str(s: &str) -> (r: Option<Mapping>)
        ensures
            match r {
                Some(m) => mapping_spec(s@) == Some(m@),
                None => mapping_spec(s@) is None,
            },
    {
        let v = str_chars(s);
        Self::from_chars(&v)
    }

    /// Reads the header line `v`.
    pub fn from_chars(v: &Vec<char>) -> (r: Option<Mapping>)
        ensures
            match r {
                Some(m) => mapping_spec(v@) == Some(m@),
                None => mapping_spec(v@) is None,
            },
    {
        let (lo, hi) = trim_bounds(v, 0, v.len());
        assert(v@.subrange(0, v.len() as int) =~= v@);
        let t = copy_range(v, lo, hi);
        let ghost l = header_layout(t@);
        let len = t.len();
        let a1 = run_end(&t, 0, CharClass::LowerHex);
        if !(0 < a1 && a1 < len && t[a1] == '-') {
            return None;
        }
        let b0 = a1 + 1;
        let b1 = run_end(&t, b0, CharClass::LowerHex);
        if !(b0 < b1) {
            return None;
        }
        let p0 = run_end(&t, b1, CharClass::Space);
        if !(b1 < p0) {
            return None;
        }
        let p1 = run_end(&t, p0, CharClass::Permission);
        if !(p0 < p1) {
            return None;
        }
        let o0 = run_end(&t, p1, CharClass::Space);
        if !(p1 < o0) {
            return None;
        }
        let o1 = run_end(&t, o0, CharClass::LowerHex);
        if !(o0 < o1) {
            return None;
        }
        let m0 = run_end(&t, o1, CharClass::Space);
        if !(o1 < m0) {
            return None;
        }
        let m1 = run_end(&t, m0, CharClass::LowerHex);
        if !(m0 < m1 && m1 < len && t[m1] == ':') {
            return None;
        }
        let n0 = m1 + 1;
        let n1 = run_end(&t, n0, CharClass::LowerHex);
        if !(n0 < n1) {
            return None;
        }
        let i0 = run_end(&t, n1, CharClass::Space);
        if !(n1 < i0) {
            return None;
        }
        let i1 = run_end(&t, i0, CharClass::Digit);
        if !(i0 < i1) {
            return None;
        }
        let r0 = run_end(&t, i1, CharClass::Space);
        if !(i1 == len || (i1 < r0 && !range_contains(&t, r0, len, '\n'))) {
            return None;
        }
        assert(header_shape_ok(t@, l));
        let start = match parse_u64_range(&t, 0, a1, 16) {
            Some(x) => x,
            None => return None,
        };
        let end = match parse_u64_range(&t, b0, b1, 16) {
            Some(x) => x,
            None => return None,
        };
        let offset = match parse_usize_hex(&t, o0, o1) {
            Some(x) => x,
            None => return None,
        };
        let major = match parse_u64_range(&t, m0, m1, 16) {
            Some(x) => x,
            None => return None,
        };
        let minor = match parse_u64_range(&t, n0, n1, 16) {
            Some(x) => x,
            None => return None,
        };
        let inode = match parse_u64_range(&t, i0, i1, 10) {
            Some(x) => x,
            None => return None,
        };
        let perms = Permissions::from_range(&t, p0, p1);
        let pathname = if i1 == len {
            None
        } else {
            Some(string_from_range(&t, r0, len))
        };
        Some(
            Mapping {
                start,
                end,
                perms,
                offset,
                device: Device { major, minor },
                inode,
                pathname,
            },
        )
    }
}


/// The counters of one `smaps` entry: its header and the `Key: value` lines after it.
#[derive(Debug, PartialEq, Eq, Clone)]
pub struct SMap {
    pub mapping: Mapping,
    pub size: u64,
    pub kernel_page_size: u64,
    pub mmu_page_size: u64,
    pub rss: u64,
    pub pss: u64,
    pub pss_dirty: u64,
    pub shared_clean: u64,
    pub shared_dirty: u64,
    pub private_clean: u64,
    pub private_dirty: u64,
    pub referenced: u64,
    pub anonymous: u64,
    pub ksm: u64,
    pub lazy_free: u64,
    pub anon_huge_pages: u64,
    pub shmem_huge_pages: u64,
    pub shmem_pmd_mapped: u64,
    pub file_pmd_mapped: u64,
    pub shared_hugetlb: u64,
    pub private_hugetlb: u64,
    pub swap: u64,
    pub swap_pss: u64,
    pub locked: u64,
    pub thp_eligible: u64,
    pub protection_key: u64,
    pub vm_flags: VmFlags,
}

/// An `smaps` entry with its header taken by its view.
pub ghost struct SMapView {
    pub mapping: MappingView,
    pub size: u64,
    pub kernel_page_size: u64,
    pub mmu_page_size: u64,
    pub rss: u64,
    pub pss: u64,
    pub pss_dirty: u64,
    pub shared_clean: u64,
    pub shared_dirty: u64,
    pub private_clean: u64,
    pub private_dirty: u64,
    pub referenced: u64,
    pub anonymous: u64,
    pub ksm: u64,
    pub lazy_free: u64,
    pub anon_huge_pages: u64,
    pub shmem_huge_pages: u64,
    pub shmem_pmd_mapped: u64,
    pub file_pmd_mapped: u64,
    pub shared_hugetlb: u64,
    pub private_hugetlb: u64,
    pub swap: u64,
    pub swap_pss: u64,
    pub locked: u64,
    pub thp_eligible: u64,
    pub protection_key: u64,
    pub vm_flags: VmFlags,
}

impl View for SMap {
    type V = SMapView;

    open spec fn view(&self) -> SMapView {
        SMapView {
            mapping: self.mapping@,
            size: self.size,
            kernel_page_size: self.kernel_page_size,
            mmu_page_size: self.mmu_page_size,
            rss: self.rss,
            pss: self.pss,
            pss_dirty: self.pss_dirty,
            shared_clean: self.shared_clean,
            shared_dirty: self.shared_dirty,
            private_clean: self.private_clean,
            private_dirty: self.private_dirty,
            referenced: self.referenced,
            anonymous: self.anonymous,
            ksm: self.ksm,
            lazy_free: self.lazy_free,
            anon_huge_pages: self.anon_huge_pages,
            shmem_huge_pages: self.shmem_huge_pages,
            shmem_pmd_mapped: self.shmem_pmd_mapped,
            file_pmd_mapped: self.file_pmd_mapped,
            shared_hugetlb: self.shared_hugetlb,
            private_hugetlb: self.private_hugetlb,
            swap: self.swap,
            swap_pss: self.swap_pss,
            locked: self.locked,
            thp_eligible: self.thp_eligible,
            protection_key: self.protection_key,
            vm_flags: self.vm_flags,
        }
    }
}

/// The entry for header `m` before any counter line: all counters zero, no flags.
pub open spec fn smap_start(m: MappingView) -> SMapView {
    SMapView {
        mapping: m,
        size: 0,
        kernel_page_size: 0,
        mmu_page_size: 0,
        rss: 0,
        pss: 0,
        pss_dirty: 0,
        shared_clean: 0,
        shared_dirty: 0,
        private_clean: 0,
        private_dirty: 0,
        referenced: 0,
        anonymous: 0,
        ksm: 0,
        lazy_free: 0,
        anon_huge_pages: 0,
        shmem_huge_pages: 0,
        shmem_pmd_mapped: 0,
        file_pmd_mapped: 0,
        shared_hugetlb: 0,
        private_hugetlb: 0,
        swap: 0,
        swap_pss: 0,
        locked: 0,
        thp_eligible: 0,
        protection_key: 0,
        vm_flags: no_vm_flags(),
    }
}

impl Default for SMap {
    fn default() -> (r: Self)
        ensures
            r@ == smap_start(empty_mapping()),
    {
        SMap::starting_with(Mapping::default())
    }
}

/// What one line after an `smaps` header says.
pub ghost enum SMapLine {
    /// The line is not a single `Key: value` pair; it is passed over.
    Skip,
    /// A `VmFlags` line.
    Flags(VmFlags),
    /// A counter and its value in bytes (a `kB` value counts 1024 bytes per unit).
    Field(Seq<char>, u64),
    /// The value is not a number; the whole entry is refused.
    Invalid,
    /// The value in bytes does not fit 64 bits.
    Overflow,
}

/// The outcome of reading text that can be refused, or whose numbers can
/// overflow the arithmetic that reads them.
pub ghost enum Parsed<T> {
    Done(T),
    Invalid,
    Overflow,
}

pub open spec fn is_ascii_digit(c: char) -> bool {
    '0' <= c && c <= '9'
}

/// `v` ends in the unit `kB`.
pub open spec fn ends_with_kb(v: Seq<char>) -> bool {
    v.len() >= 2 && v[v.len() - 2] == 'k' && v[v.len() - 1] == 'B'
}

/// The meaning of one counter line: the line must split at `:` into exactly a
/// key and a value; the value is trimmed, loses a `kB` unit (and the white
/// space before it), must end in a digit and read as a decimal number.
pub open spec fn smap_line(line: Seq<char>) -> SMapLine {
    let kv = split_on(line, ':');
    if kv.len() != 2 {
        SMapLine::Skip
    } else if kv[0] == "VmFlags"@ {
        SMapLine::Flags(vm_flags_spec(kv[1]))
    } else {
        let v0 = trim(kv[1]);
        let kb = ends_with_kb(v0);
        let v = if kb {
            trim(v0.take(v0.len() - 2))
        } else {
            v0
        };
        let mult: nat = if kb {
            1024
        } else {
            1
        };
        if v.len() == 0 || !is_ascii_digit(v.last()) {
            SMapLine::Invalid
        } else {
            match parse_uint(v, 10, u64::MAX as int) {
                None => SMapLine::Invalid,
                Some(n) => if n * mult > u64::MAX {
                    SMapLine::Overflow
                } else {
                    SMapLine::Field(kv[0], (n * mult) as u64)
                },
            }
        }
    }
}

/// The position of counter `key` in the list of known counters, or the list's length.
pub open spec fn smap_key_index(key: Seq<char>) -> int {
    if key == "AnonHugePages"@ {
        0
    } else if key == "Anonymous"@ {
        1
    } else if key == "FilePmdMapped"@ {
        2
    } else if key == "KSM"@ {
        3
    } else if key == "KernelPageSize"@ {
        4
    } else if key == "LazyFree"@ {
        5
    } else if key == "Locked"@ {
        6
    } else if key == "MMUPageSize"@ {
        7
    } else if key == "Private_Clean"@ {
        8
    } else if key == "Private_Dirty"@ {
        9
    } else if key == "Private_Hugetlb"@ {
        10
    } else if key == "ProtectionKey"@ {
        11
    } else if key == "Pss"@ {
        12
    } else if key == "Pss_Dirty"@ {
        13
    } else if key == "Referenced"@ {
        14
    } else if key == "Rss"@ {
        15
    } else if key == "Shared_Clean"@ {
        16
    } else if key == "Shared_Dirty"@ {
        17
    } else if key == "Shared_Hugetlb"@ {
        18
    } else if key == "ShmemHugePages"@ {
        19
    } else if key == "ShmemPmdMapped"@ {
        20
    } else if key == "Size"@ {
        21
    } else if key == "Swap"@ {
        22
    } else if key == "SwapPss"@ {
        23
    } else if key == "THPeligible"@ {
        24
    } else {
        25
    }
}

/// `acc` with the known counter at position `idx` set to `n`; other positions change nothing.
pub open spec fn set_smap_index(acc: SMapView, idx: int, n: u64) -> SMapView {
    SMapView {
        mapping: acc.mapping,
        anon_huge_pages: if idx == 0 { n } else { acc.anon_huge_pages },
        anonymous: if idx == 1 { n } else { acc.anonymous },
        file_pmd_mapped: if idx == 2 { n } else { acc.file_pmd_mapped },
        ksm: if idx == 3 { n } else { acc.ksm },
        kernel_page_size: if idx == 4 { n } else { acc.kernel_page_size },
        lazy_free: if idx == 5 { n } else { acc.lazy_free },
        locked: if idx == 6 { n } else { acc.locked },
        mmu_page_size: if idx == 7 { n } else { acc.mmu_page_size },
        private_clean: if idx == 8 { n } else { acc.private_clean },
        private_dirty: if idx == 9 { n } else { acc.private_dirty },
        private_hugetlb: if idx == 10 { n } else { acc.private_hugetlb },
        protection_key: if idx == 11 { n } else { acc.protection_key },
        pss: if idx == 12 { n } else { acc.pss },
        pss_dirty: if idx == 13 { n } else { acc.pss_dirty },
        referenced: if idx == 14 { n } else { acc.referenced },
        rss: if idx == 15 { n } else { acc.rss },
        shared_clean: if idx == 16 { n } else { acc.shared_clean },
        shared_dirty: if idx == 17 { n } else { acc.shared_dirty },
        shared_hugetlb: if idx == 18 { n } else { acc.shared_hugetlb },
        shmem_huge_pages: if idx == 19 { n } else { acc.shmem_huge_pages },
        shmem_pmd_mapped: if idx == 20 { n } else { acc.shmem_pmd_mapped },
        size: if idx == 21 { n } else { acc.size },
        swap: if idx == 22 { n } else { acc.swap },
        swap_pss: if idx == 23 { n } else { acc.swap_pss },
        thp_eligible: if idx == 24 { n } else { acc.thp_eligible },
        vm_flags: acc.vm_flags,
    }
}

/// `acc` with the counter named `key` set to `n`; unknown keys change nothing.
pub open spec fn set_smap_field(acc: SMapView, key: Seq<char>, n: u64) -> SMapView {
    set_smap_index(acc, smap_key_index(key), n)
}

/// Law of smaps counter lines: the counter named by each known key is the
/// field of that name (`Rss` sets `rss`, `Pss` sets `pss`, ...), and setting
/// it keeps every other field; an unknown key changes nothing.
pub proof fn law_counter_key_sets_the_field_it_names(acc: SMapView, key: Seq<char>, n: u64)
    ensures
        set_smap_field(acc, "AnonHugePages"@, n) == (SMapView { anon_huge_pages: n, ..acc }),
        set_smap_field(acc, "Anonymous"@, n) == (SMapView { anonymous: n, ..acc }),
        set_smap_field(acc, "FilePmdMapped"@, n) == (SMapView { file_pmd_mapped: n, ..acc }),
        set_smap_field(acc, "KSM"@, n) == (SMapView { ksm: n, ..acc }),
        set_smap_field(acc, "KernelPageSize"@, n) == (SMapView { kernel_page_size: n, ..acc }),
        set_smap_field(acc, "LazyFree"@, n) == (SMapView { lazy_free: n, ..acc }),
        set_smap_field(acc, "Locked"@, n) == (SMapView { locked: n, ..acc }),
        set_smap_field(acc, "MMUPageSize"@, n) == (SMapView { mmu_page_size: n, ..acc }),
        set_smap_field(acc, "Private_Clean"@, n) == (SMapView { private_clean: n, ..acc }),
        set_smap_field(acc, "Private_Dirty"@, n) == (SMapView { private_dirty: n, ..acc }),
        set_smap_field(acc, "Private_Hugetlb"@, n) == (SMapView { private_hugetlb: n, ..acc }),
        set_smap_field(acc, "ProtectionKey"@, n) == (SMapView { protection_key: n, ..acc }),
        set_smap_field(acc, "Pss"@, n) == (SMapView { pss: n, ..acc }),
        set_smap_field(acc, "Pss_Dirty"@, n) == (SMapView { pss_dirty: n, ..acc }),
        set_smap_field(acc, "Referenced"@, n) == (SMapView { referenced: n, ..acc }),
        set_smap_field(acc, "Rss"@, n) == (SMapView { rss: n, ..acc }),
        set_smap_field(acc, "Shared_Clean"@, n) == (SMapView { shared_clean: n, ..acc }),
        set_smap_field(acc, "Shared_Dirty"@, n) == (SMapView { shared_dirty: n, ..acc }),
        set_smap_field(acc, "Shared_Hugetlb"@, n) == (SMapView { shared_hugetlb: n, ..acc }),
        set_smap_field(acc, "ShmemHugePages"@, n) == (SMapView { shmem_huge_pages: n, ..acc }),
        set_smap_field(acc, "ShmemPmdMapped"@, n) == (SMapView { shmem_pmd_mapped: n, ..acc }),
        set_smap_field(acc, "Size"@, n) == (SMapView { size: n, ..acc }),
        set_smap_field(acc, "Swap"@, n) == (SMapView { swap: n, ..acc }),
        set_smap_field(acc, "SwapPss"@, n) == (SMapView { swap_pss: n, ..acc }),
        set_smap_field(acc, "THPeligible"@, n) == (SMapView { thp_eligible: n, ..acc }),
        key != "AnonHugePages"@ && key != "Anonymous"@ && key != "FilePmdMapped"@ && key != "KSM"@ && key != "KernelPageSize"@ && key != "LazyFree"@ && key != "Locked"@ && key != "MMUPageSize"@ && key != "Private_Clean"@ && key != "Private_Dirty"@ && key != "Private_Hugetlb"@ && key != "ProtectionKey"@ && key != "Pss"@ && key != "Pss_Dirty"@ && key != "Referenced"@ && key != "Rss"@ && key != "Shared_Clean"@ && key != "Shared_Dirty"@ && key != "Shared_Hugetlb"@ && key != "ShmemHugePages"@ && key != "ShmemPmdMapped"@ && key != "Size"@ && key != "Swap"@ && key != "SwapPss"@ && key != "THPeligible"@ ==> set_smap_field(acc, key, n) == acc,
{
    reveal_strlit("AnonHugePages");
    reveal_strlit("Anonymous");
    reveal_strlit("FilePmdMapped");
    reveal_strlit("KSM");
    reveal_strlit("KernelPageSize");
    reveal_strlit("LazyFree");
    reveal_strlit("Locked");
    reveal_strlit("MMUPageSize");
    reveal_strlit("Private_Clean");
    reveal_strlit("Private_Dirty");
    reveal_strlit("Private_Hugetlb");
    reveal_strlit("ProtectionKey");
    reveal_strlit("Pss");
    reveal_strlit("Pss_Dirty");
    reveal_strlit("Referenced");
    reveal_strlit("Rss");
    reveal_strlit("Shared_Clean");
    reveal_strlit("Shared_Dirty");
    reveal_strlit("Shared_Hugetlb");
    reveal_strlit("ShmemHugePages");
    reveal_strlit("ShmemPmdMapped");
    reveal_strlit("Size");
    reveal_strlit("Swap");
    reveal_strlit("SwapPss");
    reveal_strlit("THPeligible");
    assert("AnonHugePages"@.len() == 13);
    assert("Anonymous"@.len() == 9);
    assert("FilePmdMapped"@.len() == 13);
    assert("KSM"@.len() == 3);
    assert("KernelPageSize"@.len() == 14);
    assert("LazyFree"@.len() == 8);
    assert("Locked"@.len() == 6);
    assert("MMUPageSize"@.len() == 11);
    assert("Private_Clean"@.len() == 13);
    assert("Private_Dirty"@.len() == 13);
    assert("Private_Hugetlb"@.len() == 15);
    assert("ProtectionKey"@.len() == 13);
    assert("Pss"@.len() == 3);
    assert("Pss_Dirty"@.len() == 9);
    assert("Referenced"@.len() == 10);
    assert("Rss"@.len() == 3);
    assert("Shared_Clean"@.len() == 12);
    assert("Shared_Dirty"@.len() == 12);
    assert("Shared_Hugetlb"@.len() == 14);
    assert("ShmemHugePages"@.len() == 14);
    assert("ShmemPmdMapped"@.len() == 14);
    assert("Size"@.len() == 4);
    assert("Swap"@.len() == 4);
    assert("SwapPss"@.len() == 7);
    assert("THPeligible"@.len() == 11);
    assert("AnonHugePages"@[0] != "FilePmdMapped"@[0]);
    assert("AnonHugePages"@[0] != "Private_Clean"@[0]);
    assert("FilePmdMapped"@[0] != "Private_Clean"@[0]);
    assert("AnonHugePages"@[0] != "Private_Dirty"@[0]);
    assert("FilePmdMapped"@[0] != "Private_Dirty"@[0]);
    assert("Private_Clean"@[8] != "Private_Dirty"@[8]);
    assert("AnonHugePages"@[0] != "ProtectionKey"@[0]);
    assert("FilePmdMapped"@[0] != "ProtectionKey"@[0]);
    assert("Private_Clean"@[2] != "ProtectionKey"@[2]);
    assert("Private_Dirty"@[2] != "ProtectionKey"@[2]);
    assert("KSM"@[0] != "Pss"@[0]);
    assert("Anonymous"@[0] != "Pss_Dirty"@[0]);
    assert("KSM"@[0] != "Rss"@[0]);
    assert("Pss"@[0] != "Rss"@[0]);
    assert("Shared_Clean"@[7] != "Shared_Dirty"@[7]);
    assert("KernelPageSize"@[0] != "Shared_Hugetlb"@[0]);
    assert("KernelPageSize"@[0] != "ShmemHugePages"@[0]);
    assert("Shared_Hugetlb"@[2] != "ShmemHugePages"@[2]);
    assert("KernelPageSize"@[0] != "ShmemPmdMapped"@[0]);
    assert("Shared_Hugetlb"@[2] != "ShmemPmdMapped"@[2]);
    assert("ShmemHugePages"@[5] != "ShmemPmdMapped"@[5]);
    assert("Size"@[1] != "Swap"@[1]);
    assert("MMUPageSize"@[0] != "THPeligible"@[0]);
}

/// Law of `VmFlags` words: each flag is set exactly when its two-letter
/// name is one of the words.
pub proof fn law_vm_flag_set_when_named(words: Seq<Seq<char>>)
    ensures
        vm_flags_of(words).rd <==> exists|i: int| 0 <= i < words.len() && words[i] == "rd"@,
        vm_flags_of(words).wr <==> exists|i: int| 0 <= i < words.len() && words[i] == "wr"@,
        vm_flags_of(words).ex <==> exists|i: int| 0 <= i < words.len() && words[i] == "ex"@,
        vm_flags_of(words).sh <==> exists|i: int| 0 <= i < words.len() && words[i] == "sh"@,
        vm_flags_of(words).mr <==> exists|i: int| 0 <= i < words.len() && words[i] == "mr"@,
        vm_flags_of(words).mw <==> exists|i: int| 0 <= i < words.len() && words[i] == "mw"@,
        vm_flags_of(words).me <==> exists|i: int| 0 <= i < words.len() && words[i] == "me"@,
        vm_flags_of(words).ms <==> exists|i: int| 0 <= i < words.len() && words[i] == "ms"@,
        vm_flags_of(words).gd <==> exists|i: int| 0 <= i < words.len() && words[i] == "gd"@,
        vm_flags_of(words).pf <==> exists|i: int| 0 <= i < words.len() && words[i] == "pf"@,
        vm_flags_of(words).dw <==> exists|i: int| 0 <= i < words.len() && words[i] == "dw"@,
        vm_flags_of(words).lo <==> exists|i: int| 0 <= i < words.len() && words[i] == "lo"@,
        vm_flags_of(words).io <==> exists|i: int| 0 <= i < words.len() && words[i] == "io"@,
        vm_flags_of(words).sr <==> exists|i: int| 0 <= i < words.len() && words[i] == "sr"@,
        vm_flags_of(words).rr <==> exists|i: int| 0 <= i < words.len() && words[i] == "rr"@,
        vm_flags_of(words).dc <==> exists|i: int| 0 <= i < words.len() && words[i] == "dc"@,
        vm_flags_of(words).de <==> exists|i: int| 0 <= i < words.len() && words[i] == "de"@,
        vm_flags_of(words).ac <==> exists|i: int| 0 <= i < words.len() && words[i] == "ac"@,
        vm_flags_of(words).nr <==> exists|i: int| 0 <= i < words.len() && words[i] == "nr"@,
        vm_flags_of(words).ht <==> exists|i: int| 0 <= i < words.len() && words[i] == "ht"@,
        vm_flags_of(words).sf <==> exists|i: int| 0 <= i < words.len() && words[i] == "sf"@,
        vm_flags_of(words).nl <==> exists|i: int| 0 <= i < words.len() && words[i] == "nl"@,
        vm_flags_of(words).ar <==> exists|i: int| 0 <= i < words.len() && words[i] == "ar"@,
        vm_flags_of(words).wf <==> exists|i: int| 0 <= i < words.len() && words[i] == "wf"@,
        vm_flags_of(words).dd <==> exists|i: int| 0 <= i < words.len() && words[i] == "dd"@,
        vm_flags_of(words).sd <==> exists|i: int| 0 <= i < words.len() && words[i] == "sd"@,
        vm_flags_of(words).mm <==> exists|i: int| 0 <= i < words.len() && words[i] == "mm"@,
        vm_flags_of(words).hg <==> exists|i: int| 0 <= i < words.len() && words[i] == "hg"@,
        vm_flags_of(words).nh <==> exists|i: int| 0 <= i < words.len() && words[i] == "nh"@,
        vm_flags_of(words).mg <==> exists|i: int| 0 <= i < words.len() && words[i] == "mg"@,
        vm_flags_of(words).um <==> exists|i: int| 0 <= i < words.len() && words[i] == "um"@,
        vm_flags_of(words).uw <==> exists|i: int| 0 <= i < words.len() && words[i] == "uw"@,
{
}

/// The position of counter `key` in the list of known counters.
pub fn counter_index(key: &Vec<char>) -> (r: usize)
    ensures
        r == smap_key_index(key@),
{
    if chars_eq_str(key, "AnonHugePages") {
        0
    } else if chars_eq_str(key, "Anonymous") {
        1
    } else if chars_eq_str(key, "FilePmdMapped") {
        2
    } else if chars_eq_str(key, "KSM") {
        3
    } else if chars_eq_str(key, "KernelPageSize") {
        4
    } else if chars_eq_str(key, "LazyFree") {
        5
    } else if chars_eq_str(key, "Locked") {
        6
    } else if chars_eq_str(key, "MMUPageSize") {
        7
    } else if chars_eq_str(key, "Private_Clean") {
        8
    } else if chars_eq_str(key, "Private_Dirty") {
        9
    } else if chars_eq_str(key, "Private_Hugetlb") {
        10
    } else if chars_eq_str(key, "ProtectionKey") {
        11
    } else if chars_eq_str(key, "Pss") {
        12
    } else if chars_eq_str(key, "Pss_Dirty") {
        13
    } else if chars_eq_str(key, "Referenced") {
        14
    } else if chars_eq_str(key, "Rss") {
        15
    } else if chars_eq_str(key, "Shared_Clean") {
        16
    } else if chars_eq_str(key, "Shared_Dirty") {
        17
    } else if chars_eq_str(key, "Shared_Hugetlb") {
        18
    } else if chars_eq_str(key, "ShmemHugePages") {
        19
    } else if chars_eq_str(key, "ShmemPmdMapped") {
        20
    } else if chars_eq_str(key, "Size") {
        21
    } else if chars_eq_str(key, "Swap") {
        22
    } else if chars_eq_str(key, "SwapPss") {
        23
    } else if chars_eq_str(key, "THPeligible") {
        24
    } else {
        25
    }
}

/// Reading the counter lines `lines` into `acc`, line by line.
pub open spec fn smap_fold(acc: SMapView, lines: Seq<Seq<char>>) -> Parsed<SMapView>
    decreases lines.len(),
{
    if lines.len() == 0 {
        Parsed::Done(acc)
    } else {
        match smap_line(lines[0]) {
            SMapLine::Skip => smap_fold(acc, lines.drop_first()),
            SMapLine::Flags(f) => smap_fold(SMapView { vm_flags: f, ..acc }, lines.drop_first()),
            SMapLine::Field(k, n) => smap_fold(set_smap_field(acc, k, n), lines.drop_first()),
            SMapLine::Invalid => Parsed::Invalid,
            SMapLine::Overflow => Parsed::Overflow,
        }
    }
}

/// What one counter line says, computed.
pub enum CounterLine {
    Skip,
    Flags(VmFlags),
    Field(Vec<char>, u64),
    Invalid,
    Overflow,
}

/// The ghost meaning of a computed counter line.
pub open spec fn counter_line_view(l: CounterLine) -> SMapLine {
    match l {
        CounterLine::Skip => SMapLine::Skip,
        CounterLine::Flags(f) => SMapLine::Flags(f),
        CounterLine::Field(k, n) => SMapLine::Field(k@, n),
        CounterLine::Invalid => SMapLine::Invalid,
        CounterLine::Overflow => SMapLine::Overflow,
    }
}

/// Reads one counter line.
pub fn read_counter_line(line: &Vec<char>) -> (r: CounterLine)
    ensures
        counter_line_view(r) == smap_line(line@),
{
    let kv = split_chars(line, ':');
    if kv.len() != 2 {
        return CounterLine::Skip;
    }
    let key = &kv[0];
    let value = &kv[1];
    assert(views(kv@)[0] == key@ && views(kv@)[1] == value@);
    if chars_eq_str(key, "VmFlags") {
        return CounterLine::Flags(VmFlags::from_chars(value));
    }
    let v0 = trim_chars(value);
    let len0 = v0.len();
    let kb = len0 >= 2 && v0[len0 - 2] == 'k' && v0[len0 - 1] == 'B';
    let v = if kb {
        let (lo, hi) = trim_bounds(&v0, 0, len0 - 2);
        assert(v0@.subrange(0, len0 - 2) =~= v0@.take(len0 - 2));
        copy_range(&v0, lo, hi)
    } else {
        v0
    };
    let mult: u64 = if kb {
        1024
    } else {
        1
    };
    if v.len() == 0 || !('0' <= v[v.len() - 1] && v[v.len() - 1] <= '9') {
        return CounterLine::Invalid;
    }
    match parse_u64(&v) {
        None => CounterLine::Invalid,
        Some(n) => match n.checked_mul(mult) {
            None => CounterLine::Overflow,
            Some(bytes) => {
                assert(key@.subrange(0, key.len() as int) =~= key@);
                CounterLine::Field(copy_range(key, 0, key.len()), bytes)
            },
        },
    }
}

impl SMap {
    /// The entry for header `mapping` before any counter line.
    pub fn starting_with(mapping: Mapping) -> (r: SMap)
        ensures
            r@ == smap_start(mapping@),
    {
        SMap {
            mapping,
            size: 0,
            kernel_page_size: 0,
            mmu_page_size: 0,
            rss: 0,
            pss: 0,
            pss_dirty: 0,
            shared_clean: 0,
            shared_dirty: 0,
            private_clean: 0,
            private_dirty: 0,
            referenced: 0,
            anonymous: 0,
            ksm: 0,
            lazy_free: 0,
            anon_huge_pages: 0,
            shmem_huge_pages: 0,
            shmem_pmd_mapped: 0,
            file_pmd_mapped: 0,
            shared_hugetlb: 0,
            private_hugetlb: 0,
            swap: 0,
            swap_pss: 0,
            locked: 0,
            thp_eligible: 0,
            protection_key: 0,
            vm_flags: VmFlags::default(),
        }
    }

    /// This entry with the known counter at position `idx` set to `n`.
    pub fn with_counter_at(self, idx: usize, n: u64) -> (r: SMap)
        ensures
            r@ == set_smap_index(self@, idx as int, n),
    {
        let anon_huge_pages = if idx == 0 {
            n
        } else {
            self.anon_huge_pages
        };
        let anonymous = if idx == 1 {
            n
        } else {
            self.anonymous
        };
        let file_pmd_mapped = if idx == 2 {
            n
        } else {
            self.file_pmd_mapped
        };
        let ksm = if idx == 3 {
            n
        } else {
            self.ksm
        };
        let kernel_page_size = if idx == 4 {
            n
        } else {
            self.kernel_page_size
        };
        let lazy_free = if idx == 5 {
            n
        } else {
            self.lazy_free
        };
        let locked = if idx == 6 {
            n
        } else {
            self.locked
        };
        let mmu_page_size = if idx == 7 {
            n
        } else {
            self.mmu_page_size
        };
        let private_clean = if idx == 8 {
            n
        } else {
            self.private_clean
        };
        let private_dirty = if idx == 9 {
            n
        } else {
            self.private_dirty
        };
        let private_hugetlb = if idx == 10 {
            n
        } else {
            self.private_hugetlb
        };
        let protection_key = if idx == 11 {
            n
        } else {
            self.protection_key
        };
        let pss = if idx == 12 {
            n
        } else {
            self.pss
        };
        let pss_dirty = if idx == 13 {
            n
        } else {
            self.pss_dirty
        };
        let referenced = if idx == 14 {
            n
        } else {
            self.referenced
        };
        let rss = if idx == 15 {
            n
        } else {
            self.rss
        };
        let shared_clean = if idx == 16 {
            n
        } else {
            self.shared_clean
        };
        let shared_dirty = if idx == 17 {
            n
        } else {
            self.shared_dirty
        };
        let shared_hugetlb = if idx == 18 {
            n
        } else {
            self.shared_hugetlb
        };
        let shmem_huge_pages = if idx == 19 {
            n
        } else {
            self.shmem_huge_pages
        };
        let shmem_pmd_mapped = if idx == 20 {
            n
        } else {
            self.shmem_pmd_mapped
        };
        let size = if idx == 21 {
            n
        } else {
            self.size
        };
        let swap = if idx == 22 {
            n
        } else {
            self.swap
        };
        let swap_pss = if idx == 23 {
            n
        } else {
            self.swap_pss
        };
        let thp_eligible = if idx == 24 {
            n
        } else {
            self.thp_eligible
        };
        SMap {
            mapping: self.mapping,
            anon_huge_pages,
            anonymous,
            file_pmd_mapped,
            ksm,
            kernel_page_size,
            lazy_free,
            locked,
            mmu_page_size,
            private_clean,
            private_dirty,
            private_hugetlb,
            protection_key,
            pss,
            pss_dirty,
            referenced,
            rss,
            shared_clean,
            shared_dirty,
            shared_hugetlb,
            shmem_huge_pages,
            shmem_pmd_mapped,
            size,
            swap,
            swap_pss,
            thp_eligible,
            vm_flags: self.vm_flags,
        }
    }

    /// This entry with the counter named `key` set to `n`; unknown keys change nothing.
    pub fn with_counter(self, key: &Vec<char>, n: u64) -> (r: SMap)
        ensures
            r@ == set_smap_field(self@, key@, n),
    {
        let idx = counter_index(key);
        self.with_counter_at(idx, n)
    }

    /// Reads the counter lines `lines[lo..hi]` of the entry whose header is
    /// `mapping`, telling a refused line from a value that overflows.
    pub fn read_char_lines(mapping: Mapping, lines: &Vec<Vec<char>>, lo: usize, hi: usize) -> (r:
        EntryRead)
        requires
            lo <= hi <= lines.len(),
        ensures
            match r {
                EntryRead::Entry(m) => smap_fold(smap_start(mapping@), views(lines@).subrange(lo as int, hi as int))
                    == Parsed::Done(m@),
                EntryRead::Invalid => smap_fold(smap_start(mapping@), views(lines@).subrange(lo as int, hi as int)) is Invalid,
                EntryRead::Overflow => smap_fold(smap_start(mapping@), views(lines@).subrange(lo as int, hi as int)) is Overflow,
            },
    {
        let ghost all = views(lines@).subrange(lo as int, hi as int);
        let ghost start = smap_start(mapping@);
        let mut res = SMap::starting_with(mapping);
        let mut i = lo;
        assert(all.skip(0) =~= all);
        while i < hi
            invariant
                lo <= i <= hi <= lines.len(),
                all == views(lines@).subrange(lo as int, hi as int),
                smap_fold(start, all) == smap_fold(res@, all.skip(i - lo)),
                start == smap_start(mapping@),
            decreases hi - i,
        {
            let ghost rest = all.skip(i - lo);
            assert(rest[0] == lines@[i as int]@);
            assert(rest.drop_first() =~= all.skip(i + 1 - lo));
            match read_counter_line(&lines[i]) {
                CounterLine::Skip => {},
                CounterLine::Flags(f) => {
                    res.vm_flags = f;
                },
                CounterLine::Field(k, n) => {
                    res = res.with_counter(&k, n);
                },
                CounterLine::Invalid => {
                    return EntryRead::Invalid;
                },
                CounterLine::Overflow => {
                    return EntryRead::Overflow;
                },
            }
            i = i + 1;
        }
        EntryRead::Entry(res)
    }

    /// Reads the counter lines `lines[lo..hi]` of the entry whose header is `mapping`.
    pub fn from_char_lines(mapping: Mapping, lines: &Vec<Vec<char>>, lo: usize, hi: usize) -> (r:
        Option<SMap>)
        requires
            lo <= hi <= lines.len(),
            !(smap_fold(smap_start(mapping@), views(lines@).subrange(lo as int, hi as int)) is Overflow),
        ensures
            match r {
                Some(m) => smap_fold(smap_start(mapping@), views(lines@).subrange(lo as int, hi as int))
                    == Parsed::Done(m@),
                None => smap_fold(smap_start(mapping@), views(lines@).subrange(lo as int, hi as int)) is Invalid,
            },
    {
        match SMap::read_char_lines(mapping, lines, lo, hi) {
            EntryRead::Entry(m) => Some(m),
            EntryRead::Invalid => None,
            EntryRead::Overflow => None,
        }
    }

    /// Reads the counter lines `lines` of the entry whose header is `mapping`;
    /// `None` when a value is not a number.
    pub fn from_lines(mapping: Mapping, lines: Vec<&str>) -> (r: Option<SMap>)
        requires
            !(smap_fold(smap_start(mapping@), str_views(lines@)) is Overflow),
        ensures
            match r {
                Some(m) => smap_fold(smap_start(mapping@), str_views(lines@)) == Parsed::Done(m@),
                None => smap_fold(smap_start(mapping@), str_views(lines@)) is Invalid,
            },
    {
        let mut char_lines: Vec<Vec<char>> = Vec::new();
        let mut i: usize = 0;
        while i < lines.len()
            invariant
                i <= lines.len(),
                views(char_lines@) =~= str_views(lines@).take(i as int),
            decreases lines.len() - i,
        {
            let l = str_chars(lines[i]);
            let ghost before = views(char_lines@);
            char_lines.push(l);
            assert(views(char_lines@) =~= before.push(l@));
            assert(str_views(lines@).take(i + 1) =~= str_views(lines@).take(i as int).push(lines@[i as int]@));
            i = i + 1;
        }
        assert(views(char_lines@).subrange(0, char_lines.len() as int) =~= str_views(lines@));
        Self::from_char_lines(mapping, &char_lines, 0, char_lines.len())
    }
}

/// The views of a sequence of string slices.
pub open spec fn str_views(s: Seq<&str>) -> Seq<Seq<char>> {
    s.map_values(|x: &str| x@)
}


/// Index of the first header line of `lines` at or after `i`, or `lines.len()`.
pub open spec fn next_header(lines: Seq<Seq<char>>, i: int) -> int
    decreases lines.len() - i,
{
    if 0 <= i < lines.len() && mapping_spec(lines[i]) is None {
        next_header(lines, i + 1)
    } else {
        i
    }
}

pub proof fn lemma_next_header(lines: Seq<Seq<char>>, i: int, j: int)
    requires
        0 <= i <= j <= lines.len(),
        forall|k: int| i <= k < j ==> mapping_spec(#[trigger] lines[k]) is None,
        j == lines.len() || mapping_spec(lines[j]) is Some,
    ensures
        next_header(lines, i) == j,
    decreases j - i,
{
    if i < j {
        lemma_next_header(lines, i + 1, j);
    }
}

pub proof fn lemma_next_header_bounds(lines: Seq<Seq<char>>, i: int)
    requires
        0 <= i <= lines.len(),
    ensures
        i <= next_header(lines, i) <= lines.len(),
    decreases lines.len() - i,
{
    if i < lines.len() && mapping_spec(lines[i]) is None {
        lemma_next_header_bounds(lines, i + 1);
    }
}

/// The entries that `lines[i..]` holds: a header line, then every line up to
/// the next header as its counter lines, and so on; any other first line is
/// refused.
pub open spec fn smaps_from(lines: Seq<Seq<char>>, i: int) -> Parsed<Seq<SMapView>>
    decreases lines.len() - i,
{
    if i < 0 || i >= lines.len() {
        Parsed::Done(seq![])
    } else {
        match mapping_spec(lines[i]) {
            None => Parsed::Invalid,
            Some(m) => {
                let j = next_header(lines, i + 1);
                proof {
                    lemma_next_header_bounds(lines, i + 1);
                }
                match smap_fold(smap_start(m), lines.subrange(i + 1, j)) {
                    Parsed::Done(e) => match smaps_from(lines, j) {
                        Parsed::Done(rest) => Parsed::Done(seq![e] + rest),
                        Parsed::Invalid => Parsed::Invalid,
                        Parsed::Overflow => Parsed::Overflow,
                    },
                    Parsed::Invalid => Parsed::Invalid,
                    Parsed::Overflow => Parsed::Overflow,
                }
            },
        }
    }
}

/// The entries of an `smaps` text, read line by line (lines end at `\n`).
pub open spec fn smaps_spec(raw: Seq<char>) -> Parsed<Seq<SMapView>> {
    smaps_from(split_on(raw, '\n'), 0)
}

/// `done` put before the entries of `rest`, when `rest` was read.
pub open spec fn after_entries(done: Seq<SMapView>, rest: Parsed<Seq<SMapView>>) -> Parsed<
    Seq<SMapView>,
> {
    match rest {
        Parsed::Done(r) => Parsed::Done(done + r),
        Parsed::Invalid => Parsed::Invalid,
        Parsed::Overflow => Parsed::Overflow,
    }
}

/// The views of a sequence of entries.
pub open spec fn smap_views(v: Seq<SMap>) -> Seq<SMapView> {
    v.map_values(|m: SMap| m@)
}

/// An entry's counter lines, read.
pub enum EntryRead {
    Entry(SMap),
    Invalid,
    Overflow,
}

/// A whole `smaps` text, read.
pub enum SmapsRead {
    Entries(Vec<SMap>),
    Invalid,
    Overflow,
}

/// Reads an `smaps` text: a header line, its counter lines, and so on.
/// Tells text whose first line is not a header, or with a counter value that
/// is not a number, from text with a value too large for `u64`.
#[verifier::spinoff_prover]
#[verifier::rlimit(40)]
pub fn read_smaps(raw: &str) -> (r: SmapsRead)
    ensures
        match r {
            SmapsRead::Entries(v) => smaps_spec(raw@) == Parsed::Done(smap_views(v@)),
            SmapsRead::Invalid => smaps_spec(raw@) is Invalid,
            SmapsRead::Overflow => smaps_spec(raw@) is Overflow,
        },
{
    let chars = str_chars(raw);
    let lines = split_chars(&chars, '\n');
    let ghost all = views(lines@);
    let n = lines.len();
    let mut res: Vec<SMap> = Vec::new();
    let mut i: usize = 0;
    assert(smap_views(res@) =~= Seq::<SMapView>::empty());
    assert(after_entries(Seq::empty(), smaps_from(all, 0)) =~= smaps_from(all, 0)) by {
        match smaps_from(all, 0) {
            Parsed::Done(r) => {
                assert(Seq::<SMapView>::empty() + r =~= r);
            },
            _ => {},
        }
    }
    while i < n
        invariant
            i <= n == lines.len(),
            all == views(lines@),
            all == split_on(raw@, '\n'),
            smaps_spec(raw@) == after_entries(smap_views(res@), smaps_from(all, i as int)),
        decreases n - i,
    {
        let m = match Mapping::from_chars(&lines[i]) {
            Some(m) => m,
            None => {
                assert(all[i as int] == lines@[i as int]@);
                return SmapsRead::Invalid;
            },
        };
        assert(all[i as int] == lines@[i as int]@);
        let mut j = i + 1;
        while j < n && Mapping::from_chars(&lines[j]).is_none()
            invariant
                i < j <= n == lines.len(),
                all == views(lines@),
                forall|k: int| i + 1 <= k < j ==> mapping_spec(#[trigger] all[k]) is None,
            decreases n - j,
        {
            assert(all[j as int] == lines@[j as int]@);
            j = j + 1;
        }
        proof {
            if j < n {
                assert(all[j as int] == lines@[j as int]@);
            }
            lemma_next_header(all, i + 1, j as int);
            assert(views(lines@).subrange(i + 1, j as int) == all.subrange(i + 1, j as int));
        }
        let e = match SMap::read_char_lines(m, &lines, i + 1, j) {
            EntryRead::Entry(e) => e,
            EntryRead::Invalid => {
                return SmapsRead::Invalid;
            },
            EntryRead::Overflow => {
                return SmapsRead::Overflow;
            },
        };
        let ghost before = smap_views(res@);
        res.push(e);
        proof {
            assert(smap_views(res@) =~= before.push(e@));
            match smaps_from(all, j as int) {
                Parsed::Done(rest) => {
                    assert(before + (seq![e@] + rest) =~= before.push(e@) + rest);
                },
                _ => {},
            }
        }
        i = j;
    }
    assert(smaps_from(all, n as int) == Parsed::<Seq<SMapView>>::Done(seq![]));
    assert(smap_views(res@) + seq![] =~= smap_views(res@));
    SmapsRead::Entries(res)
}

/// Reads the text of `/proc/<pid>/smaps`: each header line followed by its
/// counter lines. `None` when the first line is not a header or a counter
/// value is not a number.
pub fn from_str(raw: &str) -> (r: Option<Vec<SMap>>)
    requires
        !(smaps_spec(raw@) is Overflow),
    ensures
        match r {
            Some(v) => smaps_spec(raw@) == Parsed::Done(smap_views(v@)),
            None => smaps_spec(raw@) is Invalid,
        },
{
    match read_smaps(raw) {
        SmapsRead::Entries(v) => Some(v),
        SmapsRead::Invalid => None,
        SmapsRead::Overflow => None,
    }
}

} // verus!
