//! How a scanner starts: from which nodes, on which network, with which cache.
use vstd::prelude::*;

verus! {

/// A Monero network.
#[derive(Debug, Clone, Copy, PartialEq, Eq, Structural)]
pub enum Network {
    Mainnet,
    Testnet,
    Stagenet,
}

/// Why there is no scan of the network that was asked for.
#[derive(Debug, Clone, Copy, PartialEq, Eq, Structural)]
pub enum NetworkError {
    /// The scanner does not support this network yet.
    Unsupported(Network),
    /// No network has that name.
    Unknown,
}

impl Network {
    /// The network of that name: "mainnet", "testnet" or "stagenet".
    pub open spec fn named(name: Seq<char>) -> Option<Network> {
        if name == "mainnet"@ {
            Some(Network::Mainnet)
        } else if name == "testnet"@ {
            Some(Network::Testnet)
        } else if name == "stagenet"@ {
            Some(Network::Stagenet)
        } else {
            None
        }
    }

    /// The network of that name.
    pub fn from_name(name: &String) -> (network: Option<Network>)
        ensures
            network == Network::named(name@),
    {
        if *name == "mainnet".to_owned() {
            Some(Network::Mainnet)
        } else if *name == "testnet".to_owned() {
            Some(Network::Testnet)
        } else if *name == "stagenet".to_owned() {
            Some(Network::Stagenet)
        } else {
            None
        }
    }

    /// The network of that name, where it can be scanned: so far only the main network can.
    pub fn to_scan(name: &String) -> (network: Result<Network, NetworkError>)
        ensures
            network == match Network::named(name@) {
                Some(Network::Mainnet) => Ok::<Network, NetworkError>(Network::Mainnet),
                Some(other) => Err(NetworkError::Unsupported(other)),
                None => Err(NetworkError::Unknown),
            },
            network is Ok <==> name@ == "mainnet"@,
    {
        match Network::from_name(name) {
            Some(Network::Mainnet) => Ok(Network::Mainnet),
            Some(other) => Err(NetworkError::Unsupported(other)),
            None => Err(NetworkError::Unknown),
        }
    }
}

/// The public nodes that a scanner knows of.
pub open spec fn public_nodes() -> Seq<Seq<char>> {
    seq![
        "http://xmr-node.cakewallet.com:18081"@,
        "https://node.sethforprivacy.com"@,
        "http://nodex.monerujo.io:18081"@,
        "http://nodes.hashvault.pro:18081"@,
        "http://node.c3pool.com:18081"@,
        "http://node.trocador.app:18089"@,
        "http://xmr.lukas.services:18089"@,
        "http://xmr-node-eu.cakewallet.com:18081"@,
        "http://38.105.209.54:18089"@,
        "http://68.118.241.70:18089"@,
        "http://145.239.97.211:18089"@,
    ]
}

/// The default nodes: the public ones, and then the same ones once more.
pub open spec fn default_nodes() -> Seq<Seq<char>> {
    public_nodes() + public_nodes()
}

/// The text of each of `strings`.
pub open spec fn texts(strings: Seq<String>) -> Seq<Seq<char>> {
    strings.map_values(|string: String| string@)
}

/// Lists the public nodes.
fn list_public_nodes() -> (urls: Vec<String>)
    ensures
        texts(urls@) == public_nodes(),
{
    let mut urls: Vec<String> = Vec::new();
    urls.push("http://xmr-node.cakewallet.com:18081".to_owned());
    urls.push("https://node.sethforprivacy.com".to_owned());
    urls.push("http://nodex.monerujo.io:18081".to_owned());
    urls.push("http://nodes.hashvault.pro:18081".to_owned());
    urls.push("http://node.c3pool.com:18081".to_owned());
    urls.push("http://node.trocador.app:18089".to_owned());
    urls.push("http://xmr.lukas.services:18089".to_owned());
    urls.push("http://xmr-node-eu.cakewallet.com:18081".to_owned());
    urls.push("http://38.105.209.54:18089".to_owned());
    urls.push("http://68.118.241.70:18089".to_owned());
    urls.push("http://145.239.97.211:18089".to_owned());
    assert(texts(urls@) =~= public_nodes());
    urls
}

/// A scanner was told to use neither the default nodes nor any other.
#[derive(Debug, Clone, Copy, PartialEq, Eq, Structural)]
pub struct NoNodes;

/// The nodes to scan from: the default ones, unless they are not to be used, and then `rpc_nodes`.
pub fn node_urls(dont_use_default_nodes: bool, rpc_nodes: Vec<String>) -> (urls: Result<
    Vec<String>,
    NoNodes,
>)
    ensures
        urls is Err <==> dont_use_default_nodes && rpc_nodes@.len() == 0,
        urls matches Ok(list) ==> texts(list@) == if dont_use_default_nodes {
            texts(rpc_nodes@)
        } else {
            default_nodes() + texts(rpc_nodes@)
        },
        urls matches Ok(list) ==> (dont_use_default_nodes ==> list@ == rpc_nodes@),
        urls matches Ok(list) ==> (!dont_use_default_nodes ==> {
            &&& list@.len() == 22 + rpc_nodes@.len()
            &&& forall|i: int|
                0 <= i < rpc_nodes@.len() ==> list@[22 + i] == #[trigger] rpc_nodes@[i]
        }),
{
    if dont_use_default_nodes && rpc_nodes.len() == 0 {
        return Err(NoNodes);
    }
    if dont_use_default_nodes {
        return Ok(rpc_nodes);
    }
    let mut urls = list_public_nodes();
    let mut again = list_public_nodes();
    let ghost once = urls@;
    let ghost twice = again@;
    let mut rpc_nodes = rpc_nodes;
    let ghost given = rpc_nodes@;
    urls.append(&mut again);
    urls.append(&mut rpc_nodes);
    assert(texts(once).len() == 11 && texts(twice).len() == 11);
    assert(urls@ =~= once + twice + given);
    assert(texts(once + twice + given) =~= texts(once) + texts(twice) + texts(given));
    Ok(urls)
}

/// The name of the file that the scanning cache is kept in.
pub fn cache_file_name() -> (name: &'static str)
    ensures
        name@ == "cuprate_rpc_scanning_cache.bin"@,
{
    "cuprate_rpc_scanning_cache.bin"
}

/// The sum of `amounts`, where one that is not given counts for nothing.
pub open spec fn sum_of(amounts: Seq<Option<u64>>) -> nat
    decreases amounts.len(),
{
    if amounts.len() == 0 {
        0
    } else {
        sum_of(amounts.drop_last()) + match amounts.last() {
            Some(amount) => amount as nat,
            None => 0,
        }
    }
}

proof fn lemma_sum_of_grows(amounts: Seq<Option<u64>>, count: int)
    requires
        0 <= count <= amounts.len(),
    ensures
        sum_of(amounts.take(count)) <= sum_of(amounts),
    decreases amounts.len() - count,
{
    if count < amounts.len() {
        lemma_sum_of_grows(amounts, count + 1);
        assert(amounts.take(count + 1).drop_last() =~= amounts.take(count));
    } else {
        assert(amounts.take(count) =~= amounts);
    }
}

/// The total of the outputs of a transaction, where it can be counted. An output whose amount is not
/// given counts for nothing.
pub fn total_outs(amounts: &Vec<Option<u64>>) -> (total: Option<u64>)
    ensures
        sum_of(amounts@) <= u64::MAX ==> total == Some(sum_of(amounts@) as u64),
        sum_of(amounts@) > u64::MAX ==> total is None,
{
    let mut total: u64 = 0;
    let mut i: usize = 0;
    while i < amounts.len()
        invariant
            i <= amounts@.len(),
            total == sum_of(amounts@.take(i as int)),
        decreases amounts@.len() - i,
    {
        let amount: u64 = match amounts[i] {
            Some(amount) => amount,
            None => 0,
        };
        proof {
            assert(amounts@.take(i + 1).drop_last() =~= amounts@.take(i as int));
            lemma_sum_of_grows(amounts@, i + 1);
        }
        match total.checked_add(amount) {
            Some(sum) => {
                total = sum;
            },
            None => {
                return None;
            },
        }
        i += 1;
    }
    assert(amounts@.take(i as int) =~= amounts@);
    Some(total)
}

/// Every name stands for at most one network, and every network has its own name.
pub proof fn law_each_network_has_its_name(name: Seq<char>)
    ensures
        Network::named(name) == Some(Network::Mainnet) <==> name == "mainnet"@,
        Network::named(name) == Some(Network::Testnet) <==> name == "testnet"@,
        Network::named(name) == Some(Network::Stagenet) <==> name == "stagenet"@,
{
    reveal_strlit("mainnet");
    reveal_strlit("testnet");
    reveal_strlit("stagenet");
    assert("mainnet"@[0] != "testnet"@[0]);
    assert("mainnet"@[0] != "stagenet"@[0]);
    assert("testnet"@[0] != "stagenet"@[0]);
}

/// The texts of strings are those of each of them, one for one.
pub proof fn law_texts_of_each_string(strings: Seq<String>)
    ensures
        texts(strings).len() == strings.len(),
        forall|i: int| 0 <= i < strings.len() ==> #[trigger] texts(strings)[i] == strings[i]@,
{
}

/// The default nodes are these, each listed twice.
pub proof fn law_default_nodes_are_listed_twice(i: int)
    ensures
        default_nodes().len() == 22,
        0 <= i < 11 ==> default_nodes()[i] == default_nodes()[i + 11],
        default_nodes()[0] == "http://xmr-node.cakewallet.com:18081"@,
        default_nodes()[1] == "https://node.sethforprivacy.com"@,
        default_nodes()[2] == "http://nodex.monerujo.io:18081"@,
        default_nodes()[3] == "http://nodes.hashvault.pro:18081"@,
        default_nodes()[4] == "http://node.c3pool.com:18081"@,
        default_nodes()[5] == "http://node.trocador.app:18089"@,
        default_nodes()[6] == "http://xmr.lukas.services:18089"@,
        default_nodes()[7] == "http://xmr-node-eu.cakewallet.com:18081"@,
        default_nodes()[8] == "http://38.105.209.54:18089"@,
        default_nodes()[9] == "http://68.118.241.70:18089"@,
        default_nodes()[10] == "http://145.239.97.211:18089"@,
{
}

/// Amounts add up in whatever parts they are taken, an amount alone is its own sum, and one that is
/// not given adds nothing.
pub proof fn law_sum_of_parts(a: Seq<Option<u64>>, b: Seq<Option<u64>>, amount: u64)
    ensures
        sum_of(a + b) == sum_of(a) + sum_of(b),
        sum_of(seq![Some(amount)]) == amount,
        sum_of(seq![None]) == 0,
    decreases b.len(),
{
    assert(seq![Some(amount)].drop_last() =~= Seq::<Option<u64>>::empty());
    assert(seq![None::<u64>].drop_last() =~= Seq::<Option<u64>>::empty());
    assert(sum_of(Seq::<Option<u64>>::empty()) == 0);
    if b.len() == 0 {
        assert(a + b =~= a);
    } else {
        law_sum_of_parts(a, b.drop_last(), amount);
        assert((a + b).drop_last() =~= a + b.drop_last());
    }
}

} // verus!
