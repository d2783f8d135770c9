use vstd::prelude::*;

verus! {

/// One translatable unit of a catalog: source text (msgid), target text
/// (msgstr), a translated flag and a plurality marker.
pub struct Message {
    pub msgid: String,
    pub msgstr: String,
    pub translated: bool,
    pub plural: bool,
}

/// The mathematical model of a message: its texts as character sequences.
pub ghost struct MessageModel {
    pub msgid: Seq<char>,
    pub msgstr: Seq<char>,
    pub translated: bool,
    pub plural: bool,
}

impl View for Message {
    type V = MessageModel;

    open spec fn view(&self) -> MessageModel {
        MessageModel {
            msgid: self.msgid@,
            msgstr: self.msgstr@,
            translated: self.translated,
            plural: self.plural,
        }
    }
}

impl Message {
    /// An exact copy, with every field known to be kept.
    pub fn duplicate(&self) -> (r: Message)
        ensures
            r@ == self@,
    {
        Message {
            msgid: self.msgid.clone(),
            msgstr: self.msgstr.clone(),
            translated: self.translated,
            plural: self.plural,
        }
    }
}

/// An ordered sequence of message records plus the target language.
pub struct Catalog {
    pub messages: Vec<Message>,
    pub lang: String,
}

/// The mathematical model of a catalog.
pub ghost struct CatalogModel {
    pub messages: Seq<MessageModel>,
    pub lang: Seq<char>,
}

impl View for Catalog {
    type V = CatalogModel;

    open spec fn view(&self) -> CatalogModel {
        CatalogModel {
            messages: self.messages@.map_values(|m: Message| m@),
            lang: self.lang@,
        }
    }
}

} // verus!
