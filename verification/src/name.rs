//! DNS names as the router sees them: a sequence of lowercase labels,
//! parsed from dotted text, with subdomain (suffix) matching.

use vstd::prelude::*;

verus! {

/// Bytes allowed in a canonicalized label: lowercase letters, digits,
/// `-` and `_`.
pub open spec fn is_name_byte(b: u8) -> bool {
    (97 <= b && b <= 122) || (48 <= b && b <= 57) || b == 45 || b == 95
}

/// The byte a character contributes to a canonicalized label:
/// ASCII uppercase letters fold to lowercase, everything else keeps
/// its code (truncated to a byte; callers only apply this to ASCII).
pub open spec fn lower_char_byte(c: char) -> u8 {
    if 'A' <= c && c <= 'Z' {
        ((c as u8) + 32) as u8
    } else {
        c as u8
    }
}

/// A character acceptable inside a label: ASCII, and a name byte once
/// folded to lowercase.
pub open spec fn name_char_ok(c: char) -> bool {
    (c as nat) < 128 && is_name_byte(lower_char_byte(c))
}

/// The canonical (lowercase) bytes of a span of label text.
pub open spec fn lower_bytes(s: Seq<char>) -> Seq<u8> {
    s.map_values(|c: char| lower_char_byte(c))
}

/// Text that forms one label: length one to sixty-three, every
/// character acceptable.
pub open spec fn valid_label_chars(s: Seq<char>) -> bool {
    &&& 1 <= s.len() <= 63
    &&& forall|i: int| 0 <= i < s.len() ==> name_char_ok(#[trigger] s[i])
}

/// A canonicalized label: length one to sixty-three, name bytes only.
pub open spec fn wf_label(l: Seq<u8>) -> bool {
    &&& 1 <= l.len() <= 63
    &&& forall|i: int| 0 <= i < l.len() ==> is_name_byte(#[trigger] l[i])
}

/// The length of a name on the wire: one length octet per label plus the
/// label bytes, and the final root octet.
pub open spec fn encoded_len(ls: Seq<Seq<u8>>) -> nat
    decreases ls.len(),
{
    if ls.len() == 0 {
        1
    } else {
        ls[0].len() + 1 + encoded_len(ls.drop_first())
    }
}

/// A well-formed name: at least one label, every label well formed, and
/// the whole name within the wire-format length limit.
pub open spec fn wf_name(ls: Seq<Seq<u8>>) -> bool {
    &&& 1 <= ls.len()
    &&& forall|i: int| 0 <= i < ls.len() ==> wf_label(#[trigger] ls[i])
    &&& encoded_len(ls) <= 255
}

/// Index of the first `.` in `s`, or a negative value if there is none.
pub open spec fn first_dot(s: Seq<char>) -> int
    decreases s.len(),
{
    if s.len() == 0 {
        -1
    } else if s[0] == '.' {
        0
    } else {
        let r = first_dot(s.drop_first());
        if r < 0 {
            -1
        } else {
            r + 1
        }
    }
}

/// What `first_dot` finds: a dot position with no dot before it, or the
/// absence of any dot.
pub proof fn lemma_first_dot(s: Seq<char>)
    ensures
        first_dot(s) >= 0 ==> 0 <= first_dot(s) < s.len() && s[first_dot(s)] == '.' && (forall|i:
            int|
            0 <= i < first_dot(s) ==> (#[trigger] s[i]) != '.'),
        first_dot(s) < 0 ==> forall|i: int| 0 <= i < s.len() ==> (#[trigger] s[i]) != '.',
    decreases s.len(),
{
    if s.len() == 0 {
    } else if s[0] == '.' {
    } else {
        lemma_first_dot(s.drop_first());
        let r = first_dot(s.drop_first());
        if r >= 0 {
            assert(s[r + 1] == s.drop_first()[r]);
            assert forall|i: int| 0 <= i < r + 1 implies (#[trigger] s[i]) != '.' by {
                if i > 0 {
                    assert(s.drop_first()[i - 1] == s[i]);
                }
            }
        } else {
            assert forall|i: int| 0 <= i < s.len() implies (#[trigger] s[i]) != '.' by {
                if i > 0 {
                    assert(s.drop_first()[i - 1] == s[i]);
                }
            }
        }
    }
}

/// Splits text into canonicalized labels at each `.`: fails on an empty
/// or over-long label or a character no label may hold.
pub open spec fn parse_labels(s: Seq<char>) -> Option<Seq<Seq<u8>>>
    decreases s.len(),
    via parse_labels_decreases
{
    let d = first_dot(s);
    if d < 0 {
        if valid_label_chars(s) {
            Some(seq![lower_bytes(s)])
        } else {
            None
        }
    } else if !valid_label_chars(s.take(d)) {
        None
    } else {
        match parse_labels(s.skip(d + 1)) {
            Some(rest) => Some(seq![lower_bytes(s.take(d))] + rest),
            None => None,
        }
    }
}

#[via_fn]
proof fn parse_labels_decreases(s: Seq<char>) {
    lemma_first_dot(s);
}

/// The text with one trailing dot removed, as a fully-qualified name is
/// written.
pub open spec fn strip_root_dot(s: Seq<char>) -> Seq<char> {
    if s.len() > 0 && s[s.len() - 1] == '.' {
        s.drop_last()
    } else {
        s
    }
}

/// The name a piece of text denotes: its labels, canonicalized, if the
/// text (with an optional trailing dot) splits into valid labels and the
/// whole fits the wire-format length limit.
pub open spec fn parse_name_chars(s: Seq<char>) -> Option<Seq<Seq<u8>>> {
    match parse_labels(strip_root_dot(s)) {
        Some(ls) => if encoded_len(ls) <= 255 {
            Some(ls)
        } else {
            None
        },
        None => None,
    }
}

/// A DNS name: its labels in query order (most specific first), each
/// canonicalized to lowercase bytes.
#[derive(Clone, PartialEq, Eq, Debug)]
pub struct DnsName {
    pub labels: Vec<Vec<u8>>,
}

impl View for DnsName {
    type V = Seq<Seq<u8>>;

    open spec fn view(&self) -> Seq<Seq<u8>> {
        self.labels@.map_values(|l: Vec<u8>| l@)
    }
}

/// `zone` names a zone that `name` belongs to: the zone's labels are a
/// suffix of the name's labels ("is subdomain of, or equal to").
pub open spec fn is_zone_of(zone: Seq<Seq<u8>>, name: Seq<Seq<u8>>) -> bool {
    &&& zone.len() <= name.len()
    &&& forall|i: int| 0 <= i < zone.len() ==> zone[i] == name[name.len() - zone.len() + i]
}

/// Element-by-element equality of two byte vectors.
fn bytes_eq(a: &Vec<u8>, b: &Vec<u8>) -> (r: bool)
    ensures
        r == (a@ == b@),
{
    if a.len() != b.len() {
        return false;
    }
    let mut i: usize = 0;
    while i < a.len()
        invariant
            a@.len() == b@.len(),
            0 <= i <= a@.len(),
            forall|j: int| 0 <= j < i ==> a@[j] == b@[j],
        decreases a@.len() - i,
    {
        if a[i] != b[i] {
            return false;
        }
        i = i + 1;
    }
    proof {
        assert(a@ =~= b@);
    }
    true
}

/// A copy of a byte vector with the same view.
pub fn copy_bytes(v: &Vec<u8>) -> (r: Vec<u8>)
    ensures
        r@ == v@,
{
    let mut r: Vec<u8> = Vec::new();
    let mut i: usize = 0;
    while i < v.len()
        invariant
            0 <= i <= v@.len(),
            r@.len() == i,
            forall|j: int| 0 <= j < i ==> r@[j] == v@[j],
        decreases v@.len() - i,
    {
        r.push(v[i]);
        i = i + 1;
    }
    proof {
        assert(r@ =~= v@);
    }
    r
}

impl DnsName {
    /// Validity of the name: see `wf_name`.
    pub open spec fn wf(&self) -> bool {
        wf_name(self@)
    }

    /// Whether `self` names a zone that `name` belongs to.
    pub fn zone_of(&self, name: &DnsName) -> (r: bool)
        ensures
            r == is_zone_of(self@, name@),
    {
        let zn = self.labels.len();
        let nn = name.labels.len();
        if zn > nn {
            return false;
        }
        let off = nn - zn;
        let mut i: usize = 0;
        while i < zn
            invariant
                zn == self.labels@.len(),
                nn == name.labels@.len(),
                zn <= nn,
                off == nn - zn,
                0 <= i <= zn,
                forall|j: int| 0 <= j < i ==> self@[j] == name@[off + j],
            decreases zn - i,
        {
            if !bytes_eq(&self.labels[i], &name.labels[off + i]) {
                assert(self@[i as int] != name@[off + i]);
                return false;
            }
            assert(self@[i as int] == name@[off + i]);
            i = i + 1;
        }
        true
    }

    /// A copy of the name with the same view.
    pub fn duplicate(&self) -> (r: DnsName)
        ensures
            r@ == self@,
    {
        let mut ls: Vec<Vec<u8>> = Vec::new();
        let mut i: usize = 0;
        while i < self.labels.len()
            invariant
                0 <= i <= self.labels@.len(),
                ls@.len() == i,
                forall|j: int| 0 <= j < i ==> ls@[j]@ == self.labels@[j]@,
            decreases self.labels@.len() - i,
        {
            ls.push(copy_bytes(&self.labels[i]));
            i = i + 1;
        }
        let r = DnsName { labels: ls };
        proof {
            assert(r@ =~= self@);
        }
        r
    }
}

/// `encoded_len` counts the remainder of a name label by label.
pub proof fn lemma_encoded_len_skip(ls: Seq<Seq<u8>>, i: int)
    requires
        0 <= i < ls.len(),
    ensures
        encoded_len(ls.skip(i)) == ls[i].len() + 1 + encoded_len(ls.skip(i + 1)),
{
    assert(ls.skip(i).len() > 0);
    assert(ls.skip(i)[0] == ls[i]);
    assert(ls.skip(i).drop_first() =~= ls.skip(i + 1));
}

/// Every name needs at least its root octet.
pub proof fn lemma_encoded_len_pos(ls: Seq<Seq<u8>>)
    ensures
        encoded_len(ls) >= 1,
{
}

/// Glues already-parsed labels onto the outcome of parsing the rest.
spec fn glue(done: Seq<Seq<u8>>, rest: Option<Seq<Seq<u8>>>) -> Option<Seq<Seq<u8>>> {
    match rest {
        Some(r) => Some(done + r),
        None => None,
    }
}

/// Parses dotted name text into a `DnsName`, folding ASCII uppercase to
/// lowercase and allowing one trailing dot, exactly as `parse_name_chars`
/// describes.
pub fn parse_name(s: &str) -> (r: Option<DnsName>)
    ensures
        match r {
            Some(n) => parse_name_chars(s@) == Some(n@) && n.wf(),
            None => parse_name_chars(s@) is None,
        },
{
    let n = s.unicode_len();
    let end: usize = if n > 0 && s.get_char(n - 1) == '.' {
        n - 1
    } else {
        n
    };
    let ghost t: Seq<char> = strip_root_dot(s@);
    proof {
        assert(t =~= s@.take(end as int));
    }
    let mut labels: Vec<Vec<u8>> = Vec::new();
    let mut cur: Vec<u8> = Vec::new();
    let ghost mut start: int = 0;
    let mut i: usize = 0;
    proof {
        assert(cur@ =~= lower_bytes(t.subrange(0, 0)));
        assert(t.skip(0) =~= t);
        assert(labels@.map_values(|l: Vec<u8>| l@) =~= Seq::<Seq<u8>>::empty());
        match parse_labels(t) {
            Some(ls) => {
                assert(Seq::<Seq<u8>>::empty() + ls =~= ls);
            },
            None => {},
        }
    }
    while i < end
        invariant
            end <= s@.len(),
            t == s@.take(end as int),
            t == strip_root_dot(s@),
            t.len() == end,
            0 <= start <= i <= end,
            cur@ == lower_bytes(t.subrange(start, i as int)),
            cur@.len() <= 63,
            forall|j: int| start <= j < i ==> (#[trigger] t[j]) != '.',
            forall|j: int| start <= j < i ==> name_char_ok(#[trigger] t[j]),
            forall|j: int| 0 <= j < labels@.len() ==> wf_label(#[trigger] labels@[j]@),
            glue(labels@.map_values(|l: Vec<u8>| l@), parse_labels(t.skip(start))) == parse_labels(
                t,
            ),
        decreases end - i,
    {
        let c = s.get_char(i);
        proof {
            assert(t[i as int] == s@[i as int]);
        }
        if c == '.' {
            if cur.len() == 0 {
                proof {
                    assert(cur@.len() == 0);
                    assert(start == i);
                    assert(t.skip(start)[0] == '.');
                    lemma_first_dot(t.skip(start));
                    assert(first_dot(t.skip(start)) == 0);
                    assert(t.skip(start).take(0) =~= Seq::<char>::empty());
                    assert(!valid_label_chars(t.skip(start).take(0)));
                    assert(parse_labels(t.skip(start)) is None);
                }
                return None;
            }
            proof {
                let rem = t.skip(start);
                let d = i - start;
                assert(1 <= d <= 63);
                assert(rem[d] == '.');
                lemma_first_dot(rem);
                assert(first_dot(rem) == d) by {
                    let fd = first_dot(rem);
                    if fd < 0 {
                        assert(rem[d] != '.');
                    } else if fd < d {
                        assert(rem[fd] == t[start + fd]);
                        assert(t[start + fd] != '.');
                    } else if fd > d {
                        assert(rem[d] != '.');
                    }
                }
                assert(rem.take(d) =~= t.subrange(start, i as int));
                assert(valid_label_chars(rem.take(d))) by {
                    assert(rem.take(d).len() == d);
                    assert forall|j: int| 0 <= j < d implies name_char_ok(
                        #[trigger] rem.take(d)[j],
                    ) by {
                        assert(rem.take(d)[j] == t[start + j]);
                        assert(name_char_ok(t[start + j]));
                    }
                }
                assert(rem.skip(d + 1) =~= t.skip(i + 1));
                let lab = lower_bytes(t.subrange(start, i as int));
                assert(parse_labels(rem) == glue(seq![lab], parse_labels(t.skip(i + 1))));
                let done = labels@.map_values(|l: Vec<u8>| l@);
                assert(glue(done, parse_labels(rem)) == glue(
                    done.push(lab),
                    parse_labels(t.skip(i + 1)),
                )) by {
                    match parse_labels(t.skip(i + 1)) {
                        Some(rest) => {
                            assert(done + (seq![lab] + rest) =~= done.push(lab) + rest);
                        },
                        None => {},
                    }
                }
                assert(wf_label(lab)) by {
                    assert(lab.len() == d);
                    assert forall|j: int| 0 <= j < lab.len() implies is_name_byte(
                        #[trigger] lab[j],
                    ) by {
                        assert(lab[j] == lower_char_byte(t.subrange(start, i as int)[j]));
                        assert(t.subrange(start, i as int)[j] == t[start + j]);
                        assert(name_char_ok(t[start + j]));
                    }
                }
            }
            let ghost old_done = labels@.map_values(|l: Vec<u8>| l@);
            let ghost lab = cur@;
            labels.push(cur);
            cur = Vec::new();
            proof {
                start = i + 1;
                assert(labels@.map_values(|l: Vec<u8>| l@) =~= old_done.push(lab));
                assert(cur@ =~= lower_bytes(t.subrange(start, start)));
                assert(labels@[labels@.len() - 1]@ == lab);
            }
        } else {
            let cp: u32 = c as u32;
            let ok: bool = cp < 128 && {
                let b: u8 = if cp >= 65 && cp <= 90 {
                    (cp + 32) as u8
                } else {
                    cp as u8
                };
                (97 <= b && b <= 122) || (48 <= b && b <= 57) || b == 45 || b == 95
            };
            proof {
                assert(ok == name_char_ok(c));
            }
            if !ok || cur.len() == 63 {
                proof {
                    let rem = t.skip(start);
                    let p = i - start;
                    assert(rem[p] == t[i as int]);
                    assert(rem[p] != '.');
                    lemma_first_dot(rem);
                    let d = first_dot(rem);
                    if d < 0 {
                        assert(!valid_label_chars(rem)) by {
                            if !ok {
                                assert(!name_char_ok(rem[p]));
                            } else {
                                assert(cur@.len() == 63);
                                assert(p == 63);
                                assert(rem.len() >= 64);
                            }
                        }
                        assert(parse_labels(rem) is None);
                    } else {
                        assert(d != p);
                        assert(d > p) by {
                            if d < p {
                                assert(rem[d] == t[start + d]);
                                assert(t[start + d] != '.');
                            }
                        }
                        assert(!valid_label_chars(rem.take(d))) by {
                            assert(rem.take(d).len() == d);
                            if !ok {
                                assert(rem.take(d)[p] == rem[p]);
                                assert(!name_char_ok(rem.take(d)[p]));
                            } else {
                                assert(cur@.len() == 63);
                                assert(d >= 64);
                            }
                        }
                        assert(parse_labels(rem) is None);
                    }
                }
                return None;
            }
            let b: u8 = if cp >= 65 && cp <= 90 {
                (cp + 32) as u8
            } else {
                cp as u8
            };
            proof {
                assert(b == lower_char_byte(c));
            }
            cur.push(b);
            proof {
                assert(t.subrange(start, i + 1) =~= t.subrange(start, i as int).push(c));
                assert(cur@ =~= lower_bytes(t.subrange(start, i + 1))) by {
                    assert(lower_bytes(t.subrange(start, i as int).push(c)) =~= lower_bytes(
                        t.subrange(start, i as int),
                    ).push(lower_char_byte(c)));
                }
            }
        }
        i = i + 1;
    }
    if cur.len() == 0 {
        proof {
            assert(cur@.len() == 0);
            assert(start == i && i == end);
            assert(t.skip(start) =~= Seq::<char>::empty());
            assert(first_dot(t.skip(start)) < 0);
            assert(!valid_label_chars(t.skip(start)));
            assert(parse_labels(t.skip(start)) is None);
        }
        return None;
    }
    proof {
        let rem = t.skip(start);
        lemma_first_dot(rem);
        assert(first_dot(rem) < 0) by {
            let fd = first_dot(rem);
            if fd >= 0 {
                assert(rem[fd] == t[start + fd]);
                assert(t[start + fd] != '.');
            }
        }
        assert(rem =~= t.subrange(start, end as int));
        assert(rem == t.subrange(start, i as int));
        assert(valid_label_chars(rem)) by {
            assert(rem.len() == cur@.len());
            assert forall|j: int| 0 <= j < rem.len() implies name_char_ok(#[trigger] rem[j]) by {
                assert(rem[j] == t[start + j]);
                assert(name_char_ok(t[start + j]));
            }
        }
        assert(parse_labels(rem) == Some(seq![lower_bytes(rem)]));
        assert(wf_label(lower_bytes(rem))) by {
            assert forall|j: int| 0 <= j < lower_bytes(rem).len() implies is_name_byte(
                #[trigger] lower_bytes(rem)[j],
            ) by {
                assert(lower_bytes(rem)[j] == lower_char_byte(rem[j]));
                assert(name_char_ok(rem[j]));
            }
        }
    }
    let ghost old_done = labels@.map_values(|l: Vec<u8>| l@);
    let ghost lab = cur@;
    labels.push(cur);
    proof {
        let all = labels@.map_values(|l: Vec<u8>| l@);
        assert(lab == lower_bytes(t.skip(start)));
        assert(all =~= old_done.push(lab));
        assert(old_done + seq![lab] =~= old_done.push(lab));
        assert(parse_labels(t) == Some(all));
        assert(labels@[labels@.len() - 1]@ == lab);
    }
    // The labels are settled; check the wire-format length limit.
    let mut acc: usize = 0;
    let mut k: usize = 0;
    proof {
        assert(labels@.map_values(|l: Vec<u8>| l@).skip(0) =~= labels@.map_values(
            |l: Vec<u8>| l@,
        ));
    }
    while k < labels.len()
        invariant
            0 <= k <= labels@.len(),
            acc <= 254,
            1 <= labels@.len(),
            t == strip_root_dot(s@),
            parse_labels(t) == Some(labels@.map_values(|l: Vec<u8>| l@)),
            forall|j: int| 0 <= j < labels@.len() ==> wf_label(#[trigger] labels@[j]@),
            acc + encoded_len(labels@.map_values(|l: Vec<u8>| l@).skip(k as int)) == encoded_len(
                labels@.map_values(|l: Vec<u8>| l@),
            ),
        decreases labels@.len() - k,
    {
        proof {
            lemma_encoded_len_skip(labels@.map_values(|l: Vec<u8>| l@), k as int);
            lemma_encoded_len_pos(labels@.map_values(|l: Vec<u8>| l@).skip(k as int + 1));
            assert(labels@.map_values(|l: Vec<u8>| l@)[k as int] == labels@[k as int]@);
            assert(wf_label(labels@[k as int]@));
        }
        let step = labels[k].len() + 1;
        if acc + step > 254 {
            proof {
                assert(encoded_len(labels@.map_values(|l: Vec<u8>| l@)) > 255);
            }
            return None;
        }
        acc = acc + step;
        k = k + 1;
    }
    proof {
        let all = labels@.map_values(|l: Vec<u8>| l@);
        assert(all.skip(labels@.len() as int) =~= Seq::<Seq<u8>>::empty());
        assert(encoded_len(all) == acc + 1);
        assert(wf_name(all)) by {
            assert forall|j: int| 0 <= j < all.len() implies wf_label(#[trigger] all[j]) by {
                assert(all[j] == labels@[j]@);
            }
        }
    }
    Some(DnsName { labels })
}

} // verus!
