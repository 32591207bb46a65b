use vstd::prelude::*;

verus! {

/// The kind of one argument in a message signature.
#[derive(Clone, Copy, Debug, PartialEq, Eq, Structural)]
pub enum ArgumentType {
    Int,
    Uint,
    Fixed,
    Str,
    Object,
    NewId,
    Array,
    Fd,
}

/// One argument of a raw wire message, as the argument codec hands it over.
#[derive(Clone, Debug)]
pub enum Argument {
    Int(i32),
    Uint(u32),
    /// A 24.8 signed fixed-point value.
    Fixed(i32),
    Str(String),
    Object(u32),
    NewId(u32),
    Array(Vec<u8>),
    Fd(i32),
}

impl Argument {
    pub open spec fn spec_kind(&self) -> ArgumentType {
        match self {
            Argument::Int(_) => ArgumentType::Int,
            Argument::Uint(_) => ArgumentType::Uint,
            Argument::Fixed(_) => ArgumentType::Fixed,
            Argument::Str(_) => ArgumentType::Str,
            Argument::Object(_) => ArgumentType::Object,
            Argument::NewId(_) => ArgumentType::NewId,
            Argument::Array(_) => ArgumentType::Array,
            Argument::Fd(_) => ArgumentType::Fd,
        }
    }

    /// The kind of this argument.
    pub fn kind(&self) -> (r: ArgumentType)
        ensures
            r == self.spec_kind(),
    {
        match self {
            Argument::Int(_) => ArgumentType::Int,
            Argument::Uint(_) => ArgumentType::Uint,
            Argument::Fixed(_) => ArgumentType::Fixed,
            Argument::Str(_) => ArgumentType::Str,
            Argument::Object(_) => ArgumentType::Object,
            Argument::NewId(_) => ArgumentType::NewId,
            Argument::Array(_) => ArgumentType::Array,
            Argument::Fd(_) => ArgumentType::Fd,
        }
    }
}

/// Description of one request or event of an interface.
pub struct MessageDesc {
    pub name: String,
    pub signature: Vec<ArgumentType>,
    /// Whether this message ends the life of the object it is sent to.
    pub destructor: bool,
}

/// A raw message: the target object, the opcode and the arguments.
pub struct Message {
    pub sender_id: u32,
    pub opcode: u16,
    pub args: Vec<Argument>,
}

/// A message checked against its interface's message table.
pub struct Request {
    pub opcode: u16,
    pub destructor: bool,
    pub args: Vec<Argument>,
}

/// Why a raw message could not be decoded.
#[derive(Clone, Copy, Debug, PartialEq, Eq, Structural)]
pub enum DecodeError {
    /// The opcode names no message of the interface.
    UnknownOpcode,
    /// The arguments do not follow the message's signature.
    MalformedArguments,
}

/// The arguments follow the signature one for one.
pub open spec fn args_match(sig: Seq<ArgumentType>, args: Seq<Argument>) -> bool {
    &&& sig.len() == args.len()
    &&& forall|i: int| 0 <= i < args.len() ==> #[trigger] args[i].spec_kind() == sig[i]
}

/// What decoding `msg` against the message table `table` yields.
pub open spec fn decode_result(table: Seq<MessageDesc>, msg: Message) -> Result<
    Request,
    DecodeError,
> {
    if msg.opcode as int >= table.len() {
        Err(DecodeError::UnknownOpcode)
    } else if !args_match(table[msg.opcode as int].signature@, msg.args@) {
        Err(DecodeError::MalformedArguments)
    } else {
        Ok(
            Request {
                opcode: msg.opcode,
                destructor: table[msg.opcode as int].destructor,
                args: msg.args,
            },
        )
    }
}

/// Checks the arguments of a message against a signature.
pub fn check_signature(sig: &Vec<ArgumentType>, args: &Vec<Argument>) -> (r: bool)
    ensures
        r == args_match(sig@, args@),
{
    if sig.len() != args.len() {
        return false;
    }
    let mut i: usize = 0;
    while i < args.len()
        invariant
            sig.len() == args.len(),
            i <= args.len(),
            forall|j: int| 0 <= j < i ==> #[trigger] args@[j].spec_kind() == sig@[j],
        decreases args.len() - i,
    {
        if args[i].kind() != sig[i] {
            return false;
        }
        i = i + 1;
    }
    true
}

/// Decodes a raw message into a request of the interface whose requests are
/// described by `table`.
pub fn decode(table: &Vec<MessageDesc>, msg: Message) -> (r: Result<Request, DecodeError>)
    ensures
        r == decode_result(table@, msg),
{
    let op = msg.opcode as usize;
    if op >= table.len() {
        return Err(DecodeError::UnknownOpcode);
    }
    if !check_signature(&table[op].signature, &msg.args) {
        return Err(DecodeError::MalformedArguments);
    }
    Ok(Request { opcode: msg.opcode, destructor: table[op].destructor, args: msg.args })
}

} // verus!
