//! Token lists: an attribute of an element, read as a set of tokens in order.
//!
//! A token list is what `classList` is for the `class` attribute. A token is a string that is
//! not empty and holds no space character; the attribute holds the tokens with one space
//! between each two.

use vstd::prelude::*;
use vstd::string::*;

verus! {

/// Why a token is turned down.
#[derive(Clone, Copy, PartialEq, Eq, Structural, Debug)]
pub enum Error {
    /// The token is the empty string.
    Syntax,
    /// The token holds a space character.
    InvalidCharacter,
}

/// What an attribute holds that is read as a list of tokens: the text, and its tokens.
pub struct TokenListAttrValue {
    /// The text of the attribute.
    pub value: String,
    /// The tokens of the text, each once, in the order in which they come first.
    pub tokens: Vec<String>,
}

/// The list of the tokens of one attribute of one element.
pub struct DOMTokenList {
    /// What the attribute holds, if the element has the attribute.
    pub attribute: Option<TokenListAttrValue>,
    /// The name of the attribute.
    pub local_name: String,
}

/// Whether `c` is one of the five space characters of HTML: space, tab, line feed, form feed
/// and carriage return.
pub open spec fn is_html_space(c: char) -> bool {
    c == ' ' || c == '\t' || c == '\n' || c == '\x0c' || c == '\r'
}

/// Why `token` is turned down, if it is: the empty string for its syntax, and a string with a
/// space character for that character.
pub open spec fn token_exception(token: Seq<char>) -> Option<Error> {
    if token.len() == 0 {
        Some(Error::Syntax)
    } else if exists|i: int| 0 <= i < token.len() && is_html_space(#[trigger] token[i]) {
        Some(Error::InvalidCharacter)
    } else {
        None
    }
}

/// The texts of `tokens`.
pub open spec fn texts(tokens: Seq<String>) -> Seq<Seq<char>> {
    Seq::new(tokens.len(), |i: int| tokens[i]@)
}

/// Why the first of the first `k` tokens of `tokens` that is turned down is turned down, if
/// one is.
pub open spec fn first_exception(tokens: Seq<Seq<char>>, k: int) -> Option<Error>
    decreases k,
{
    if k <= 0 {
        None
    } else {
        match first_exception(tokens, k - 1) {
            Some(e) => Some(e),
            None => token_exception(tokens[k - 1]),
        }
    }
}

/// The first `k` tokens of `tokens` laid end to end, with one space between each two: the
/// text of an attribute that holds them.
pub open spec fn joined(tokens: Seq<Seq<char>>, k: int) -> Seq<char>
    decreases k,
{
    if k <= 0 {
        Seq::empty()
    } else {
        let before = joined(tokens, k - 1);
        (if before.len() > 0 {
            before.push(' ')
        } else {
            before
        }) + tokens[k - 1]
    }
}

/// `atoms` with `token` behind them, unless it is among them.
pub open spec fn with_token(atoms: Seq<Seq<char>>, token: Seq<char>) -> Seq<Seq<char>> {
    if atoms.contains(token) {
        atoms
    } else {
        atoms.push(token)
    }
}

/// The place where `token` stands first among `atoms`, if it is among them.
pub open spec fn first_place(atoms: Seq<Seq<char>>, token: Seq<char>) -> int
    decreases atoms.len(),
{
    if atoms.len() == 0 || atoms[0] == token {
        0
    } else {
        1 + first_place(atoms.drop_first(), token)
    }
}

/// The place where a token stands, with no such token before it, is the place where it
/// stands first.
pub proof fn lemma_first_place(atoms: Seq<Seq<char>>, token: Seq<char>, place: int)
    requires
        0 <= place < atoms.len(),
        atoms[place] == token,
        forall|j: int| 0 <= j < place ==> atoms[j] != token,
    ensures
        first_place(atoms, token) == place,
    decreases atoms.len(),
{
    if place > 0 {
        assert(atoms[0] != token);
        let rest = atoms.drop_first();
        assert forall|j: int| 0 <= j < place - 1 implies rest[j] != token by {
            assert(rest[j] == atoms[j + 1]);
        }
        lemma_first_place(rest, token, place - 1);
    }
}

/// `atoms` without the first `token` among them.
pub open spec fn without_token(atoms: Seq<Seq<char>>, token: Seq<char>) -> Seq<Seq<char>> {
    if atoms.contains(token) {
        atoms.remove(first_place(atoms, token))
    } else {
        atoms
    }
}

/// `atoms` after each of the first `k` tokens of `tokens` was added, one after the other.
pub open spec fn with_tokens(atoms: Seq<Seq<char>>, tokens: Seq<Seq<char>>, k: int) -> Seq<
    Seq<char>,
>
    decreases k,
{
    if k <= 0 {
        atoms
    } else {
        with_token(with_tokens(atoms, tokens, k - 1), tokens[k - 1])
    }
}

/// `atoms` after each of the first `k` tokens of `tokens` was taken out, one after the
/// other.
pub open spec fn without_tokens(atoms: Seq<Seq<char>>, tokens: Seq<Seq<char>>, k: int) -> Seq<
    Seq<char>,
>
    decreases k,
{
    if k <= 0 {
        atoms
    } else {
        without_token(without_tokens(atoms, tokens, k - 1), tokens[k - 1])
    }
}

/// Turns down a token that is empty or holds a space character.
pub fn check_token_exceptions(token: &str) -> (checked: Result<(), Error>)
    ensures
        checked == (match token_exception(token@) {
            Some(e) => Err::<(), Error>(e),
            None => Ok(()),
        }),
{
    let len = token.unicode_len();
    if len == 0 {
        return Err(Error::Syntax);
    }
    let mut i: usize = 0;
    while i < len
        invariant
            i <= len,
            len == token@.len(),
            forall|j: int| 0 <= j < i ==> !is_html_space(#[trigger] token@[j]),
        decreases len - i,
    {
        let c = token.get_char(i);
        if c == ' ' || c == '\t' || c == '\n' || c == '\x0c' || c == '\r' {
            return Err(Error::InvalidCharacter);
        }
        i = i + 1;
    }
    Ok(())
}

/// Where `token` stands first among `atoms`, if it is among them.
fn position(atoms: &Vec<String>, token: &String) -> (at: Option<usize>)
    ensures
        at.is_some() <==> texts(atoms@).contains(token@),
        at matches Some(i) ==> i < atoms@.len() && i == first_place(texts(atoms@), token@),
{
    let mut i: usize = 0;
    while i < atoms.len()
        invariant
            i <= atoms@.len(),
            forall|j: int| 0 <= j < i ==> (#[trigger] texts(atoms@)[j]) != token@,
        decreases atoms@.len() - i,
    {
        if atoms[i] == *token {
            proof {
                let all = texts(atoms@);
                assert(all[i as int] == token@);
                assert(all.contains(token@));
                lemma_first_place(all, token@, i as int);
            }
            return Some(i);
        }
        i = i + 1;
    }
    proof {
        let all = texts(atoms@);
        if all.contains(token@) {
            let j = choose|j: int| 0 <= j < all.len() && all[j] == token@;
            assert(all[j] != token@);
        }
    }
    None
}

/// A copy of `tokens`.
fn copied(tokens: &Vec<String>) -> (atoms: Vec<String>)
    ensures
        texts(atoms@) == texts(tokens@),
{
    let mut atoms: Vec<String> = Vec::new();
    let mut i: usize = 0;
    while i < tokens.len()
        invariant
            i <= tokens@.len(),
            atoms@.len() == i,
            forall|j: int| 0 <= j < i ==> (#[trigger] atoms@[j])@ == tokens@[j]@,
        decreases tokens@.len() - i,
    {
        atoms.push(tokens[i].clone());
        i = i + 1;
    }
    assert(texts(atoms@) =~= texts(tokens@));
    atoms
}

/// The text of an attribute that holds `atoms`: the tokens with one space between each two.
fn serialize(atoms: &Vec<String>) -> (tokenlist: String)
    ensures
        tokenlist@ == joined(texts(atoms@), atoms@.len() as int),
{
    let mut tokenlist = String::new();
    let mut i: usize = 0;
    while i < atoms.len()
        invariant
            i <= atoms@.len(),
            tokenlist@ == joined(texts(atoms@), i as int),
        decreases atoms@.len() - i,
    {
        if !tokenlist.as_str().is_empty() {
            proof {
                reveal_strlit(" ");
                assert(" "@ =~= seq![' ']);
            }
            let ghost before = tokenlist@;
            tokenlist.append(" ");
            assert(tokenlist@ =~= before.push(' '));
        }
        tokenlist.append(atoms[i].as_str());
        assert(texts(atoms@)[i as int] == atoms@[i as int]@);
        i = i + 1;
    }
    tokenlist
}

impl DOMTokenList {
    /// The tokens of the list, if the element has the attribute.
    pub open spec fn tokens(self) -> Option<Seq<Seq<char>>> {
        match self.attribute {
            Some(attr) => Some(texts(attr.tokens@)),
            None => None,
        }
    }

    /// Whether this list holds `atoms` in the attribute `name`, in the text that holds them.
    pub open spec fn holds(self, name: String, atoms: Seq<Seq<char>>) -> bool {
        &&& self.local_name == name
        &&& self.attribute matches Some(attr) && texts(attr.tokens@) == atoms && attr.value@
            == joined(atoms, atoms.len() as int)
    }

    /// The token list of the attribute `local_name` of an element, which holds `attribute`
    /// if the element has the attribute.
    pub fn new_inherited(attribute: Option<TokenListAttrValue>, local_name: String) -> (list:
        DOMTokenList)
        ensures
            list.attribute == attribute,
            list.local_name == local_name,
    {
        DOMTokenList { attribute, local_name }
    }

    /// The token list of the attribute `local_name` of an element, which holds `attribute`
    /// if the element has the attribute.
    pub fn new(attribute: Option<TokenListAttrValue>, local_name: &String) -> (list: DOMTokenList)
        ensures
            list.attribute == attribute,
            list.local_name == *local_name,
    {
        DOMTokenList::new_inherited(attribute, local_name.clone())
    }
}

#[allow(non_snake_case)]
impl DOMTokenList {
    /// The number of tokens, cut down to thirty-two bits; zero without the attribute.
    pub fn Length(&self) -> (length: u32)
        ensures
            length == (match self.tokens() {
                Some(tokens) => tokens.len() % 0x1_0000_0000,
                None => 0,
            }),
    {
        match &self.attribute {
            Some(attr) => {
                let len: u64 = attr.tokens.len() as u64;
                assert(len as u32 == len % 0x1_0000_0000) by (bit_vector);
                assert(texts(attr.tokens@).len() == len);
                #[verifier::truncate]
                (len as u32)
            },
            None => 0,
        }
    }

    /// The token at `index`, if there is one.
    pub fn Item(&self, index: u32) -> (item: Option<String>)
        ensures
            item.is_some() <==> (self.tokens() matches Some(tokens) && index < tokens.len()),
            item matches Some(token) ==> token@ == self.tokens()->0[index as int],
    {
        match &self.attribute {
            Some(attr) => {
                if (index as usize) < attr.tokens.len() {
                    Some(attr.tokens[index as usize].clone())
                } else {
                    None
                }
            },
            None => None,
        }
    }

    /// The token at `index`, if there is one; `found` says whether there is.
    pub fn IndexedGetter(&self, index: u32, found: &mut bool) -> (item: Option<String>)
        ensures
            *final(found) == item.is_some(),
            item.is_some() <==> (self.tokens() matches Some(tokens) && index < tokens.len()),
            item matches Some(token) ==> token@ == self.tokens()->0[index as int],
    {
        let item = self.Item(index);
        *found = item.is_some();
        item
    }

    /// Whether `token` is in the list. A token that is empty or holds a space character is
    /// turned down.
    pub fn Contains(&self, token: String) -> (contained: Result<bool, Error>)
        ensures
            contained == (match token_exception(token@) {
                Some(e) => Err::<bool, Error>(e),
                None => Ok(self.tokens() matches Some(tokens) && tokens.contains(token@)),
            }),
    {
        match check_token_exceptions(token.as_str()) {
            Err(error) => Err(error),
            Ok(()) => match &self.attribute {
                Some(attr) => Ok(position(&attr.tokens, &token).is_some()),
                None => Ok(false),
            },
        }
    }

    /// Adds each of `tokens` that is not in the list behind the tokens of the list, in
    /// order. If one of them is turned down, nothing is added. Without the attribute, nothing
    /// is done and nothing is turned down.
    pub fn Add(&mut self, tokens: Vec<String>) -> (added: Result<(), Error>)
        ensures
            old(self).attribute.is_none() ==> added.is_ok() && *final(self) == *old(self),
            old(self).tokens() matches Some(atoms) ==> (match first_exception(
                texts(tokens@),
                tokens@.len() as int,
            ) {
                Some(e) => added == Err::<(), Error>(e) && *final(self) == *old(self),
                None => added.is_ok() && final(self).holds(
                    old(self).local_name,
                    with_tokens(atoms, texts(tokens@), tokens@.len() as int),
                ),
            }),
    {
        match &self.attribute {
            Some(attr) => {
                let mut atoms = copied(&attr.tokens);
                let ghost start = texts(attr.tokens@);
                let mut k: usize = 0;
                while k < tokens.len()
                    invariant
                        k <= tokens@.len(),
                        *self == *old(self),
                        old(self).attribute matches Some(a) && start == texts(a.tokens@),
                        first_exception(texts(tokens@), k as int).is_none(),
                        texts(atoms@) == with_tokens(start, texts(tokens@), k as int),
                    decreases tokens@.len() - k,
                {
                    assert(texts(tokens@)[k as int] == tokens@[k as int]@);
                    match check_token_exceptions(tokens[k].as_str()) {
                        Err(error) => {
                            proof {
                                lemma_first_exception_stays(
                                    texts(tokens@),
                                    k + 1,
                                    tokens@.len() as int,
                                );
                            }
                            return Err(error);
                        },
                        Ok(()) => {
                            if position(&atoms, &tokens[k]).is_none() {
                                let ghost before = atoms@;
                                atoms.push(tokens[k].clone());
                                assert(texts(atoms@) =~= texts(before).push(tokens@[k as int]@));
                            }
                        },
                    }
                    k = k + 1;
                }
                let tokenlist = serialize(&atoms);
                self.attribute = Some(TokenListAttrValue { value: tokenlist, tokens: atoms });
                Ok(())
            },
            None => Ok(()),
        }
    }

    /// Takes each of `tokens` out of the list, in order. If one of them is turned down,
    /// nothing is taken out. Without the attribute, nothing is done and nothing is turned
    /// down.
    pub fn Remove(&mut self, tokens: Vec<String>) -> (removed: Result<(), Error>)
        ensures
            old(self).attribute.is_none() ==> removed.is_ok() && *final(self) == *old(self),
            old(self).tokens() matches Some(atoms) ==> (match first_exception(
                texts(tokens@),
                tokens@.len() as int,
            ) {
                Some(e) => removed == Err::<(), Error>(e) && *final(self) == *old(self),
                None => removed.is_ok() && final(self).holds(
                    old(self).local_name,
                    without_tokens(atoms, texts(tokens@), tokens@.len() as int),
                ),
            }),
    {
        match &self.attribute {
            Some(attr) => {
                let mut atoms = copied(&attr.tokens);
                let ghost start = texts(attr.tokens@);
                let mut k: usize = 0;
                while k < tokens.len()
                    invariant
                        k <= tokens@.len(),
                        *self == *old(self),
                        old(self).attribute matches Some(a) && start == texts(a.tokens@),
                        first_exception(texts(tokens@), k as int).is_none(),
                        texts(atoms@) == without_tokens(start, texts(tokens@), k as int),
                    decreases tokens@.len() - k,
                {
                    assert(texts(tokens@)[k as int] == tokens@[k as int]@);
                    match check_token_exceptions(tokens[k].as_str()) {
                        Err(error) => {
                            proof {
                                lemma_first_exception_stays(
                                    texts(tokens@),
                                    k + 1,
                                    tokens@.len() as int,
                                );
                            }
                            return Err(error);
                        },
                        Ok(()) => {
                            match position(&atoms, &tokens[k]) {
                                Some(index) => {
                                    let ghost before = atoms@;
                                    atoms.remove(index);
                                    assert(texts(atoms@) =~= texts(before).remove(index as int));
                                },
                                None => {},
                            }
                        },
                    }
                    k = k + 1;
                }
                let tokenlist = serialize(&atoms);
                self.attribute = Some(TokenListAttrValue { value: tokenlist, tokens: atoms });
                Ok(())
            },
            None => Ok(()),
        }
    }

    /// Puts `token` into the list if it is not there, and takes it out if it is; says
    /// whether it is there in the end. With `force`, the token is only put in (`true`) or
    /// only taken out (`false`). A token that is empty or holds a space character is turned
    /// down. Without the attribute, nothing is done, nothing is turned down, and the token
    /// is not there.
    pub fn Toggle(&mut self, token: String, force: Option<bool>) -> (toggled: Result<bool, Error>)
        ensures
            old(self).attribute.is_none() ==> toggled == Ok::<bool, Error>(false) && *final(self)
                == *old(self),
            old(self).tokens() matches Some(atoms) ==> (match token_exception(token@) {
                Some(e) => toggled == Err::<bool, Error>(e) && *final(self) == *old(self),
                None => if atoms.contains(token@) {
                    if force == Some(true) {
                        toggled == Ok::<bool, Error>(true) && *final(self) == *old(self)
                    } else {
                        toggled == Ok::<bool, Error>(false) && final(self).holds(
                            old(self).local_name,
                            without_token(atoms, token@),
                        )
                    }
                } else {
                    if force == Some(false) {
                        toggled == Ok::<bool, Error>(false) && *final(self) == *old(self)
                    } else {
                        toggled == Ok::<bool, Error>(true) && final(self).holds(
                            old(self).local_name,
                            with_token(atoms, token@),
                        )
                    }
                },
            }),
    {
        let res;
        match &self.attribute {
            Some(attr) => {
                let mut atoms = copied(&attr.tokens);
                match check_token_exceptions(token.as_str()) {
                    Ok(()) => match position(&atoms, &token) {
                        Some(index) => {
                            if force.is_some() && force.unwrap() == true {
                                return Ok(true);
                            }
                            let ghost before = atoms@;
                            atoms.remove(index);
                            assert(texts(atoms@) =~= texts(before).remove(index as int));
                            res = false;
                        },
                        None => {
                            if force.is_some() && force.unwrap() == false {
                                return Ok(false);
                            }
                            let ghost before = atoms@;
                            let ghost text = token@;
                            atoms.push(token);
                            assert(texts(atoms@) =~= texts(before).push(text));
                            res = true;
                        },
                    },
                    Err(error) => {
                        return Err(error);
                    },
                }
                let tokenlist = serialize(&atoms);
                self.attribute = Some(TokenListAttrValue { value: tokenlist, tokens: atoms });
            },
            None => {
                res = false;
            },
        }
        Ok(res)
    }
}

/// Once a token is turned down, the first that is turned down stays the same however many
/// tokens follow.
pub proof fn lemma_first_exception_stays(tokens: Seq<Seq<char>>, k: int, n: int)
    requires
        0 <= k <= n,
        first_exception(tokens, k).is_some(),
    ensures
        first_exception(tokens, n) == first_exception(tokens, k),
    decreases n - k,
{
    if k < n {
        lemma_first_exception_stays(tokens, k, n - 1);
    }
}

} // verus!
