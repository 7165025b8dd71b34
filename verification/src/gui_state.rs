//! The state and message types of the graphical wallet shell. The
//! rendering and clipboard plumbing live outside the library; these types
//! carry the data the shell displays and edits.

use vstd::prelude::*;

verus! {

/// Everything the graphical shell can ask the wallet state to do.
#[derive(Debug, Clone)]
pub enum Message {
    PrivateKeyInput(String),
    NetworkSelected(NetworkOption),
    CreateWallet,
    LoadWallet,
    RecipientInput(String),
    AmountInput(String),
    AddOutput,
    RemoveOutput(usize),
    ClearOutputs,
    SendTransaction,
    GenerateAddress,
    ValidateAddressInput(String),
    PasteFromClipboard,
    TabSelected(Tab),
    CopyAddress,
    CopyPublicKey,
}

/// The selectable networks.
#[derive(Debug, Clone, PartialEq, Eq)]
pub enum NetworkOption {
    Mainnet,
    Testnet10,
    Testnet11,
    Simnet,
}

impl NetworkOption {
    /// The network prefix string handed to the wallet.
    pub fn to_str(&self) -> (r: &'static str)
        ensures
            match self {
                NetworkOption::Mainnet => r@ == "mainnet"@,
                NetworkOption::Testnet10 => r@ == "testnet-10"@,
                NetworkOption::Testnet11 => r@ == "testnet-11"@,
                NetworkOption::Simnet => r@ == "simnet"@,
            },
    {
        match self {
            NetworkOption::Mainnet => "mainnet",
            NetworkOption::Testnet10 => "testnet-10",
            NetworkOption::Testnet11 => "testnet-11",
            NetworkOption::Simnet => "simnet",
        }
    }
}

/// The tabs of the graphical shell.
#[derive(Debug, Clone, PartialEq, Eq)]
pub enum Tab {
    Overview,
    Send,
    Receive,
    Settings,
}

/// One pending output row as edited in the send form.
#[derive(Debug, Clone)]
pub struct OutputRow {
    pub address: String,
    pub amount: String,
}

/// The full state of the graphical shell.
#[derive(Debug, Clone)]
pub struct WalletGui {
    pub private_key: String,
    pub network: NetworkOption,
    pub wallet: Option<KaspaGuiWallet>,
    pub current_tab: Tab,
    pub recipient: String,
    pub amount: String,
    pub outputs: Vec<OutputRow>,
    pub status_message: String,
    pub address_result: String,
    pub public_key_result: String,
    pub validate_address_input: String,
    pub validation_result: String,
    pub copy_address_text: String,
    pub copy_public_key_text: String,
}

/// The displayable summary of a loaded wallet.
#[derive(Debug, Clone)]
pub struct KaspaGuiWallet {
    pub address: String,
    pub public_key: String,
    pub network_name: String,
}

impl WalletGui {
    /// The initial state: mainnet, the overview tab, no wallet loaded,
    /// and every text field empty.
    pub fn new() -> (r: WalletGui)
        ensures
            r.private_key@ == Seq::<char>::empty(),
            r.network == NetworkOption::Mainnet,
            r.wallet is None,
            r.current_tab == Tab::Overview,
            r.recipient@ == Seq::<char>::empty(),
            r.amount@ == Seq::<char>::empty(),
            r.outputs@ == Seq::<OutputRow>::empty(),
            r.status_message@ == Seq::<char>::empty(),
            r.address_result@ == Seq::<char>::empty(),
            r.public_key_result@ == Seq::<char>::empty(),
            r.validate_address_input@ == Seq::<char>::empty(),
            r.validation_result@ == Seq::<char>::empty(),
            r.copy_address_text@ == Seq::<char>::empty(),
            r.copy_public_key_text@ == Seq::<char>::empty(),
    {
        let r = WalletGui {
            private_key: String::new(),
            network: NetworkOption::Mainnet,
            wallet: None,
            current_tab: Tab::Overview,
            recipient: String::new(),
            amount: String::new(),
            outputs: Vec::new(),
            status_message: String::new(),
            address_result: String::new(),
            public_key_result: String::new(),
            validate_address_input: String::new(),
            validation_result: String::new(),
            copy_address_text: String::new(),
            copy_public_key_text: String::new(),
        };
        proof {
            assert(r.outputs@ =~= Seq::<OutputRow>::empty());
        }
        r
    }
}

} // verus!
